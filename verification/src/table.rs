//! A small table from names to values, kept in the order of the names.
use crate::text;
use vstd::prelude::*;

verus! {

/// Values by name, in the order of the names.
#[derive(Debug, PartialEq, Eq)]
pub struct Table<V> {
    pub rows: Vec<(String, V)>,
}

/// The rows as a map from name to value.
pub open spec fn table_of<V>(rows: Seq<(String, V)>) -> Map<Seq<char>, V>
    decreases rows.len(),
{
    if rows.len() == 0 {
        Map::empty()
    } else {
        table_of(rows.drop_last()).insert(rows.last().0@, rows.last().1)
    }
}

/// The names are in order, so none occurs twice.
pub open spec fn rows_ordered<V>(rows: Seq<(String, V)>) -> bool {
    forall|i: int, j: int|
        0 <= i < j < rows.len() ==> text::precedes(
            (#[trigger] rows[i]).0@,
            (#[trigger] rows[j]).0@,
        )
}

impl<V> View for Table<V> {
    type V = Map<Seq<char>, V>;

    open spec fn view(&self) -> Map<Seq<char>, V> {
        table_of(self.rows@)
    }
}

/// The map holds exactly the rows.
proof fn lemma_table<V>(rows: Seq<(String, V)>)
    requires
        rows_ordered(rows),
    ensures
        forall|i: int|
            0 <= i < rows.len() ==> table_of(rows).contains_key((#[trigger] rows[i]).0@) && table_of(
                rows,
            )[rows[i].0@] == rows[i].1,
        forall|k: Seq<char>| #[trigger]
            table_of(rows).contains_key(k) ==> exists|i: int|
                0 <= i < rows.len() && (#[trigger] rows[i]).0@ == k,
    decreases rows.len(),
{
    if rows.len() > 0 {
        let init = rows.drop_last();
        assert(rows_ordered(init)) by {
            assert forall|i: int, j: int| 0 <= i < j < init.len() implies text::precedes(
                (#[trigger] init[i]).0@,
                (#[trigger] init[j]).0@,
            ) by {
                assert(text::precedes(rows[i].0@, rows[j].0@));
            }
        }
        lemma_table(init);
        assert forall|i: int| 0 <= i < rows.len() implies table_of(rows).contains_key(
            (#[trigger] rows[i]).0@,
        ) && table_of(rows)[rows[i].0@] == rows[i].1 by {
            if i < init.len() {
                assert(init[i] == rows[i]);
                assert(text::precedes(rows[i].0@, rows[rows.len() - 1].0@));
                text::order_is_total(rows[i].0@, rows[i].0@);
            }
        }
        assert forall|k: Seq<char>| #[trigger] table_of(rows).contains_key(k) implies exists|i: int|
            0 <= i < rows.len() && (#[trigger] rows[i]).0@ == k by {
            if k == rows.last().0@ {
                assert(rows[rows.len() - 1].0@ == k);
            } else {
                assert(table_of(init).contains_key(k));
                let i = choose|i: int| 0 <= i < init.len() && (#[trigger] init[i]).0@ == k;
                assert(rows[i] == init[i]);
            }
        }
    }
}

impl<V> Table<V> {
    pub open spec fn wf(self) -> bool {
        rows_ordered(self.rows@)
    }

    /// An empty table.
    pub fn new() -> (r: Table<V>)
        ensures
            r.wf(),
            r@ == Map::<Seq<char>, V>::empty(),
    {
        Table { rows: Vec::new() }
    }

    /// Whether there is no row.
    pub fn is_empty(&self) -> (r: bool)
        requires
            self.wf(),
        ensures
            r == (self@ == Map::<Seq<char>, V>::empty()),
    {
        proof {
            lemma_table(self.rows@);
            if self.rows@.len() > 0 {
                assert(self@.contains_key(self.rows@[0].0@));
            }
        }
        self.rows.len() == 0
    }

    /// Where the name's row is, or where it would be.
    fn position(&self, name: &str) -> (r: usize)
        requires
            self.wf(),
        ensures
            r <= self.rows@.len(),
            forall|j: int| 0 <= j < r ==> text::precedes((#[trigger] self.rows@[j]).0@, name@),
            forall|j: int|
                r <= j < self.rows@.len() ==> !text::precedes((#[trigger] self.rows@[j]).0@, name@),
    {
        let mut i: usize = 0;
        while i < self.rows.len()
            invariant
                i <= self.rows@.len(),
                self.wf(),
                forall|j: int| 0 <= j < i ==> text::precedes((#[trigger] self.rows@[j]).0@, name@),
            decreases self.rows@.len() - i,
        {
            if !text::before(&self.rows[i].0, name) {
                proof {
                    assert forall|j: int| i <= j < self.rows@.len() implies !text::precedes(
                        (#[trigger] self.rows@[j]).0@,
                        name@,
                    ) by {
                        if j > i && text::precedes(self.rows@[j].0@, name@) {
                            text::order_is_transitive(
                                self.rows@[i as int].0@,
                                self.rows@[j].0@,
                                name@,
                            );
                        }
                    }
                }
                return i;
            }
            i = i + 1;
        }
        i
    }

    /// The value under a name, if it has a row.
    pub fn get(&self, name: &str) -> (r: Option<&V>)
        requires
            self.wf(),
        ensures
            r == (if self@.contains_key(name@) {
                Some(&self@[name@])
            } else {
                None
            }),
    {
        let i = self.position(name);
        proof {
            lemma_table(self.rows@);
        }
        if i < self.rows.len() && text::same(&self.rows[i].0, name) {
            assert(self@.contains_key(self.rows@[i as int].0@));
            return Some(&self.rows[i].1);
        }
        proof {
            if self@.contains_key(name@) {
                let k = choose|k: int| 0 <= k < self.rows@.len() && (#[trigger] self.rows@[k]).0@ == name@;
                text::order_is_total(name@, name@);
                if k > i {
                    assert(text::precedes(self.rows@[i as int].0@, self.rows@[k].0@));
                }
            }
        }
        None
    }

    /// Gives the name a row of its own.
    pub fn insert(&mut self, name: &str, value: V)
        requires
            old(self).wf(),
        ensures
            final(self).wf(),
            final(self)@ == old(self)@.insert(name@, value),
    {
        let i = self.position(name);
        let ghost before = self.rows@;
        if i < self.rows.len() && text::same(&self.rows[i].0, name) {
            self.rows[i].1 = value;
            proof {
                assert(self.rows@ =~= before.update(i as int, (before[i as int].0, value)));
                assert(self.wf()) by {
                    assert forall|a: int, b: int| 0 <= a < b < self.rows@.len() implies text::precedes(
                        (#[trigger] self.rows@[a]).0@,
                        (#[trigger] self.rows@[b]).0@,
                    ) by {
                        assert(text::precedes(before[a].0@, before[b].0@));
                    }
                }
            }
        } else {
            self.rows.insert(i, (name.to_owned(), value));
            proof {
                let after = self.rows@;
                if i < before.len() {
                    text::order_is_total(before[i as int].0@, name@);
                }
                assert(self.wf()) by {
                    assert forall|a: int, b: int| 0 <= a < b < after.len() implies text::precedes(
                        (#[trigger] after[a]).0@,
                        (#[trigger] after[b]).0@,
                    ) by {
                        let x = if a < i {
                            a
                        } else {
                            a - 1
                        };
                        let y = if b < i {
                            b
                        } else {
                            b - 1
                        };
                        if a != i && b != i {
                            assert(text::precedes(before[x].0@, before[y].0@));
                        } else if a == i && b > i {
                            if b > i + 1 {
                                assert(text::precedes(before[i as int].0@, before[y].0@));
                                text::order_is_transitive(
                                    name@,
                                    before[i as int].0@,
                                    before[y].0@,
                                );
                            }
                        }
                    }
                }
            }
        }
        proof {
            let after = self.rows@;
            lemma_table(before);
            lemma_table(after);
            assert(after[i as int].0@ == name@ && after[i as int].1 == value);
            let m = table_of(before).insert(name@, value);
            assert forall|k: Seq<char>| #[trigger] m.contains_key(k) implies table_of(
                after,
            ).contains_key(k) && table_of(after)[k] == m[k] by {
                if k != name@ {
                    let j = choose|j: int| 0 <= j < before.len() && (#[trigger] before[j]).0@ == k;
                    if after.len() == before.len() {
                        assert(after[j] == before[j]);
                    } else if j < i {
                        assert(after[j] == before[j]);
                    } else {
                        assert(after[j + 1] == before[j]);
                    }
                }
            }
            assert forall|k: Seq<char>| #[trigger] table_of(after).contains_key(k) implies m.contains_key(
                k,
            ) by {
                let j = choose|j: int| 0 <= j < after.len() && (#[trigger] after[j]).0@ == k;
                if j != i {
                    if after.len() == before.len() || j < i {
                        assert(before[j] == after[j]);
                    } else {
                        assert(before[j - 1] == after[j]);
                    }
                }
            }
            assert(table_of(after) =~= m);
        }
    }

    /// Drops the name's row, if it has one.
    pub fn remove(&mut self, name: &str)
        requires
            old(self).wf(),
        ensures
            final(self).wf(),
            final(self)@ == old(self)@.remove(name@),
    {
        let i = self.position(name);
        let ghost before = self.rows@;
        if i < self.rows.len() && text::same(&self.rows[i].0, name) {
            let _ = self.rows.remove(i);
            proof {
                let after = self.rows@;
                assert(self.wf()) by {
                    assert forall|a: int, b: int| 0 <= a < b < after.len() implies text::precedes(
                        (#[trigger] after[a]).0@,
                        (#[trigger] after[b]).0@,
                    ) by {
                        let x = if a < i {
                            a
                        } else {
                            a + 1
                        };
                        let y = if b < i {
                            b
                        } else {
                            b + 1
                        };
                        assert(text::precedes(before[x].0@, before[y].0@));
                    }
                }
                lemma_table(before);
                lemma_table(after);
                let m = table_of(before).remove(name@);
                assert forall|k: Seq<char>| #[trigger] m.contains_key(k) implies table_of(
                    after,
                ).contains_key(k) && table_of(after)[k] == m[k] by {
                    let j = choose|j: int| 0 <= j < before.len() && (#[trigger] before[j]).0@ == k;
                    if j < i {
                        assert(after[j] == before[j]);
                    } else {
                        assert(after[j - 1] == before[j]);
                    }
                }
                assert forall|k: Seq<char>| #[trigger]
                    table_of(after).contains_key(k) implies m.contains_key(k) by {
                    let j = choose|j: int| 0 <= j < after.len() && (#[trigger] after[j]).0@ == k;
                    let x = if j < i {
                        j
                    } else {
                        j + 1
                    };
                    assert(before[x] == after[j]);
                    text::order_is_total(k, k);
                    if x < i {
                        assert(text::precedes(before[x].0@, before[i as int].0@));
                    } else {
                        assert(text::precedes(before[i as int].0@, before[x].0@));
                    }
                }
                assert(table_of(after) =~= m);
            }
        } else {
            proof {
                lemma_table(before);
                if self@.contains_key(name@) {
                    let k = choose|k: int|
                        0 <= k < self.rows@.len() && (#[trigger] self.rows@[k]).0@ == name@;
                    text::order_is_total(name@, name@);
                    if k > i {
                        assert(text::precedes(self.rows@[i as int].0@, self.rows@[k].0@));
                    }
                }
                assert(self@ =~= self@.remove(name@));
            }
        }
    }
}

} // verus!
