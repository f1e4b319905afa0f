//! A table from strings to strings, kept as a list of rows in insertion order.
//! A later row for a key shadows the earlier ones.
use vstd::prelude::*;

verus! {

/// The mapping that `rows` stands for: each row inserted in turn.
pub open spec fn rows_map(rows: Seq<(String, String)>) -> Map<Seq<char>, Seq<char>>
    decreases rows.len(),
{
    if rows.len() == 0 {
        Map::empty()
    } else {
        rows_map(rows.drop_last()).insert(rows.last().0@, rows.last().1@)
    }
}

/// A mapping from strings to strings.
pub struct StringTable {
    rows: Vec<(String, String)>,
}

impl View for StringTable {
    type V = Map<Seq<char>, Seq<char>>;

    closed spec fn view(&self) -> Map<Seq<char>, Seq<char>> {
        rows_map(self.rows@)
    }
}

impl StringTable {
    /// An empty table.
    pub fn new() -> (r: StringTable)
        ensures
            r@ == Map::<Seq<char>, Seq<char>>::empty(),
    {
        StringTable { rows: Vec::new() }
    }

    /// The value stored for `key`, if any.
    pub fn lookup(&self, key: &str) -> (r: Option<String>)
        ensures
            r is Some == self@.contains_key(key@),
            r matches Some(v) ==> v@ == self@[key@],
    {
        let wanted = key.to_owned();
        let mut found: Option<usize> = None;
        let mut i: usize = 0;
        while i < self.rows.len()
            invariant
                i <= self.rows@.len(),
                wanted@ == key@,
                found is Some == rows_map(self.rows@.take(i as int)).contains_key(key@),
                found matches Some(j) ==> j < i && rows_map(self.rows@.take(i as int))[key@]
                    == self.rows@[j as int].1@,
            decreases self.rows@.len() - i,
        {
            proof {
                assert(self.rows@.take(i + 1).drop_last() =~= self.rows@.take(i as int));
                assert(self.rows@.take(i + 1).last() == self.rows@[i as int]);
            }
            if self.rows[i].0 == wanted {
                found = Some(i);
            }
            i = i + 1;
        }
        assert(self.rows@.take(i as int) =~= self.rows@);
        match found {
            Some(j) => Some(self.rows[j].1.clone()),
            None => None,
        }
    }

    /// Stores `value` for `key`, in place of any earlier value.
    pub fn insert(&mut self, key: &str, value: &str)
        ensures
            final(self)@ == old(self)@.insert(key@, value@),
    {
        self.rows.push((key.to_owned(), value.to_owned()));
        assert(self.rows@.drop_last() =~= old(self).rows@);
    }
}

} // verus!
