use vstd::prelude::*;
use vstd::string::*;

verus! {

/// A path table as a sequence of (path, identifier) entries, in the order in
/// which each path was first recorded.
pub type TableView = Seq<(Seq<char>, u32)>;

/// The position of the last entry for `path`, if any.
pub open spec fn key_index(t: TableView, path: Seq<char>) -> Option<int>
    decreases t.len(),
{
    if t.len() == 0 {
        None
    } else if t.last().0 == path {
        Some(t.len() - 1)
    } else {
        key_index(t.drop_last(), path)
    }
}

/// Records `path -> id`: an existing entry for `path` is overwritten in place,
/// else the entry is appended.
pub open spec fn table_insert(t: TableView, path: Seq<char>, id: u32) -> TableView {
    match key_index(t, path) {
        Some(i) => t.update(i, (path, id)),
        None => t.push((path, id)),
    }
}

/// What the table maps `path` to.
pub open spec fn table_get(t: TableView, path: Seq<char>) -> Option<u32> {
    match key_index(t, path) {
        Some(i) => Some(t[i].1),
        None => None,
    }
}

/// The table after recording `writes` in order.
pub open spec fn apply_writes(t: TableView, writes: TableView) -> TableView
    decreases writes.len(),
{
    if writes.len() == 0 {
        t
    } else {
        let w = writes.last();
        table_insert(apply_writes(t, writes.drop_last()), w.0, w.1)
    }
}

pub proof fn lemma_key_index_bounds(t: TableView, path: Seq<char>)
    ensures
        match key_index(t, path) {
            Some(i) => 0 <= i < t.len() && t[i].0 == path,
            None => forall|j: int| 0 <= j < t.len() ==> t[j].0 != path,
        },
    decreases t.len(),
{
    if t.len() > 0 && t.last().0 != path {
        lemma_key_index_bounds(t.drop_last(), path);
        assert forall|j: int| 0 <= j < t.len() - 1 implies t[j] == t.drop_last()[j] by {}
    }
}

/// Recording `a` and then `b` is recording `a + b`.
pub proof fn lemma_apply_writes_append(t: TableView, a: TableView, b: TableView)
    ensures
        apply_writes(t, a + b) == apply_writes(apply_writes(t, a), b),
    decreases b.len(),
{
    if b.len() == 0 {
        assert(a + b =~= a);
    } else {
        assert((a + b).drop_last() =~= a + b.drop_last());
        lemma_apply_writes_append(t, a, b.drop_last());
    }
}

/// A table from canonical paths to item identifiers.
pub struct PathTable {
    entries: Vec<(String, u32)>,
}

impl View for PathTable {
    type V = TableView;

    closed spec fn view(&self) -> TableView {
        self.entries@.map_values(|e: (String, u32)| (e.0@, e.1))
    }
}

impl PathTable {
    pub fn new() -> (r: PathTable)
        ensures
            r@ == TableView::empty(),
    {
        let r = PathTable { entries: Vec::new() };
        assert(r@ =~= TableView::empty());
        r
    }

    fn position(&self, path: &String) -> (r: Option<usize>)
        ensures
            match r {
                Some(i) => key_index(self@, path@) == Some(i as int) && i < self@.len(),
                None => key_index(self@, path@) is None,
            },
    {
        proof {
            assert(self@.subrange(0, self@.len() as int) =~= self@);
            lemma_key_index_bounds(self@, path@);
        }
        let mut j: usize = self.entries.len();
        while j > 0
            invariant
                j <= self.entries.len(),
                key_index(self@, path@) == key_index(self@.subrange(0, j as int), path@),
            decreases j,
        {
            let ghost pre = self@.subrange(0, j as int);
            proof {
                assert(pre.drop_last() =~= self@.subrange(0, j - 1));
            }
            if self.entries[j - 1].0 == *path {
                return Some(j - 1);
            }
            j = j - 1;
        }
        None
    }

    /// Records `path -> id`, replacing what `path` mapped to before.
    pub fn insert(&mut self, path: String, id: u32)
        ensures
            final(self)@ == table_insert(old(self)@, path@, id),
    {
        proof {
            lemma_key_index_bounds(self@, path@);
        }
        match self.position(&path) {
            Some(i) => {
                let ghost k = path@;
                self.entries.set(i, (path, id));
                assert(self@ =~= table_insert(old(self)@, k, id));
            },
            None => {
                let ghost k = path@;
                self.entries.push((path, id));
                assert(self@ =~= table_insert(old(self)@, k, id));
            },
        }
    }

    /// The identifier that `path` maps to.
    pub fn get(&self, path: &str) -> (r: Option<u32>)
        ensures
            r == table_get(self@, path@),
    {
        let key = String::from_str(path);
        match self.position(&key) {
            Some(i) => Some(self.entries[i].1),
            None => None,
        }
    }

    pub fn len(&self) -> (r: usize)
        ensures
            r == self@.len(),
    {
        self.entries.len()
    }

    /// The entry at position `i`.
    pub fn entry(&self, i: usize) -> (r: (&String, u32))
        requires
            i < self@.len(),
        ensures
            r.0@ == self@[i as int].0,
            r.1 == self@[i as int].1,
    {
        (&self.entries[i].0, self.entries[i].1)
    }
}

} // verus!
