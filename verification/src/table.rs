//! A table from names to values that keeps its names in order.

use crate::text::to_chars;
use vstd::prelude::*;
use vstd::string::*;

verus! {

/// `left` stands before `right` in the order of characters, position by position.
pub open spec fn text_before(left: Seq<char>, right: Seq<char>) -> bool
    decreases left.len(),
{
    if right.len() == 0 {
        false
    } else if left.len() == 0 {
        true
    } else if left[0] == right[0] {
        text_before(left.skip(1), right.skip(1))
    } else {
        left[0] < right[0]
    }
}

/// No text stands before itself.
pub proof fn lemma_before_irreflexive(text: Seq<char>)
    ensures
        !text_before(text, text),
    decreases text.len(),
{
    if text.len() > 0 {
        lemma_before_irreflexive(text.skip(1));
    }
}

/// The order of texts is transitive.
pub proof fn lemma_before_transitive(a: Seq<char>, b: Seq<char>, c: Seq<char>)
    requires
        text_before(a, b),
        text_before(b, c),
    ensures
        text_before(a, c),
    decreases a.len(),
{
    if a.len() > 0 && a[0] == b[0] && b[0] == c[0] {
        lemma_before_transitive(a.skip(1), b.skip(1), c.skip(1));
    }
}

/// Of two different texts one stands before the other.
pub proof fn lemma_before_total(a: Seq<char>, b: Seq<char>)
    ensures
        a == b || text_before(a, b) || text_before(b, a),
    decreases a.len(),
{
    if a.len() == 0 || b.len() == 0 {
        if a.len() == b.len() {
            assert(a =~= b);
        }
    } else if a[0] == b[0] {
        lemma_before_total(a.skip(1), b.skip(1));
        if a.skip(1) == b.skip(1) {
            assert(a =~= seq![a[0]] + a.skip(1));
            assert(b =~= seq![b[0]] + b.skip(1));
        }
    }
}

proof fn lemma_before_at(a: Seq<char>, b: Seq<char>, n: int)
    requires
        0 <= n <= a.len(),
        n <= b.len(),
        a.take(n) == b.take(n),
    ensures
        text_before(a, b) == text_before(a.skip(n), b.skip(n)),
    decreases n,
{
    if n == 0 {
        assert(a.skip(0) =~= a);
        assert(b.skip(0) =~= b);
    } else {
        assert(a.take(n)[0] == a[0]);
        assert(b.take(n)[0] == b[0]);
        assert(a.skip(1).take(n - 1) =~= a.take(n).skip(1));
        assert(b.skip(1).take(n - 1) =~= b.take(n).skip(1));
        lemma_before_at(a.skip(1), b.skip(1), n - 1);
        assert(a.skip(1).skip(n - 1) =~= a.skip(n));
        assert(b.skip(1).skip(n - 1) =~= b.skip(n));
    }
}

/// Whether `left` stands before `right`.
pub fn is_before(left: &str, right: &str) -> (r: bool)
    ensures
        r == text_before(left@, right@),
{
    let a = to_chars(left);
    let b = to_chars(right);
    let mut at: usize = 0;
    while at < a.len() && at < b.len() && a[at] == b[at]
        invariant
            a@ == left@,
            b@ == right@,
            at <= a@.len(),
            at <= b@.len(),
            a@.take(at as int) == b@.take(at as int),
        decreases a@.len() - at,
    {
        assert(a@.take(at + 1) =~= a@.take(at as int).push(a@[at as int]));
        assert(b@.take(at + 1) =~= b@.take(at as int).push(b@[at as int]));
        at += 1;
    }
    proof {
        lemma_before_at(a@, b@, at as int);
    }
    if at == b.len() {
        false
    } else if at == a.len() {
        true
    } else {
        a[at] < b[at]
    }
}

/// A table from names to values; each name occurs once and the names are in order.
pub struct Table<V> {
    entries: Vec<(String, V)>,
}

impl<V> Table<V> {
    #[verifier::type_invariant]
    spec fn in_order(self) -> bool {
        forall|i: int, j: int|
            0 <= i < j < self.entries@.len() ==> text_before(
                #[trigger] self.entries@[i].0@,
                #[trigger] self.entries@[j].0@,
            )
    }

    /// The names and their values, in the order of the names.
    pub closed spec fn rows(self) -> Seq<(Seq<char>, V)> {
        Seq::new(self.entries@.len(), |i: int| (self.entries@[i].0@, self.entries@[i].1))
    }

    /// `name` has a value in the table.
    pub open spec fn has(self, name: Seq<char>) -> bool {
        exists|i: int| 0 <= i < self.rows().len() && #[trigger] self.rows()[i].0 == name
    }

    /// The value of `name`, where it has one.
    pub open spec fn value_of(self, name: Seq<char>) -> V {
        self.rows()[self.position_of(name)].1
    }

    /// Where `name` stands among the rows.
    pub open spec fn position_of(self, name: Seq<char>) -> int {
        choose|i: int| 0 <= i < self.rows().len() && #[trigger] self.rows()[i].0 == name
    }

    /// The table as a map from names to values.
    pub open spec fn contents(self) -> Map<Seq<char>, V> {
        Map::new(|name: Seq<char>| self.has(name), |name: Seq<char>| self.value_of(name))
    }

    /// The rows are in the order of their names, each name once.
    pub open spec fn ordered(rows: Seq<(Seq<char>, V)>) -> bool {
        forall|i: int, j: int|
            0 <= i < j < rows.len() ==> text_before((#[trigger] rows[i]).0, (#[trigger] rows[j]).0)
    }

    /// In ordered rows a name stands at one position only.
    pub proof fn lemma_one_position(rows: Seq<(Seq<char>, V)>, i: int, j: int)
        requires
            Self::ordered(rows),
            0 <= i < rows.len(),
            0 <= j < rows.len(),
            rows[i].0 == rows[j].0,
        ensures
            i == j,
    {
        lemma_before_irreflexive(rows[i].0);
    }

    pub fn new() -> (table: Self)
        ensures
            table.rows().len() == 0,
            table.contents() == Map::<Seq<char>, V>::empty(),
    {
        let table = Table { entries: Vec::new() };
        assert(table.contents() =~= Map::<Seq<char>, V>::empty());
        table
    }

    pub fn len(&self) -> (n: usize)
        ensures
            n == self.rows().len(),
            Self::ordered(self.rows()),
    {
        proof {
            use_type_invariant(self);
        }
        self.entries.len()
    }

    pub fn is_empty(&self) -> (r: bool)
        ensures
            r == (self.rows().len() == 0),
    {
        self.entries.len() == 0
    }

    /// The name of row `i`.
    pub fn name_at(&self, i: usize) -> (name: &str)
        requires
            i < self.rows().len(),
        ensures
            name@ == self.rows()[i as int].0,
    {
        self.entries[i].0.as_str()
    }

    /// The value of row `i`.
    pub fn value_at(&self, i: usize) -> (value: &V)
        requires
            i < self.rows().len(),
        ensures
            *value == self.rows()[i as int].1,
    {
        &self.entries[i].1
    }

    fn find(&self, name: &str) -> (r: Option<usize>)
        ensures
            match r {
                Some(i) => i < self.entries@.len() && self.entries@[i as int].0@ == name@,
                None => forall|i: int|
                    0 <= i < self.entries@.len() ==> #[trigger] self.entries@[i].0@ != name@,
            },
    {
        for i in 0..self.entries.len()
            invariant
                forall|j: int| 0 <= j < i ==> #[trigger] self.entries@[j].0@ != name@,
        {
            if crate::text::same_text(self.entries[i].0.as_str(), name) {
                return Some(i);
            }
        }
        None
    }

    /// The value of `name`.
    pub fn get(&self, name: &str) -> (r: Option<&V>)
        ensures
            match r {
                Some(value) => self.has(name@) && *value == self.value_of(name@),
                None => !self.has(name@),
            },
    {
        proof {
            use_type_invariant(self);
        }
        match self.find(name) {
            Some(i) => {
                proof {
                    assert(self.rows()[i as int].0 == name@);
                    Self::lemma_one_position(self.rows(), i as int, self.position_of(name@));
                }
                Some(&self.entries[i].1)
            },
            None => None,
        }
    }

    /// The row of `name`.
    pub fn get_row(&self, name: &str) -> (r: Option<(&str, &V)>)
        ensures
            match r {
                Some(row) => {
                    &&& self.has(name@)
                    &&& row.0@ == name@
                    &&& *row.1 == self.value_of(name@)
                },
                None => !self.has(name@),
            },
    {
        proof {
            use_type_invariant(self);
        }
        match self.find(name) {
            Some(i) => {
                proof {
                    assert(self.rows()[i as int].0 == name@);
                    Self::lemma_one_position(self.rows(), i as int, self.position_of(name@));
                }
                Some((self.entries[i].0.as_str(), &self.entries[i].1))
            },
            None => None,
        }
    }

    pub fn contains(&self, name: &str) -> (r: bool)
        ensures
            r == self.has(name@),
    {
        match self.find(name) {
            Some(i) => {
                assert(self.rows()[i as int].0 == name@);
                true
            },
            None => {
                assert forall|i: int| 0 <= i < self.rows().len() implies #[trigger] self.rows()[i].0
                    != name@ by {
                    assert(self.entries@[i].0@ != name@);
                }
                false
            },
        }
    }

    /// Gives `name` the value `value`, in place of one that it may have had.
    pub fn set(&mut self, name: String, value: V)
        ensures
            final(self).has(name@),
            final(self).value_of(name@) == value,
            forall|other: Seq<char>|
                other != name@ ==> (#[trigger] final(self).has(other) == old(self).has(other)),
            forall|other: Seq<char>|
                other != name@ && old(self).has(other) ==> #[trigger] final(self).value_of(other)
                    == old(self).value_of(other),
            final(self).rows().len() == old(self).rows().len() + (if old(self).has(name@) {
                0int
            } else {
                1int
            }),
            final(self).contents() == old(self).contents().insert(name@, value),
    {
        proof {
            use_type_invariant(&*self);
        }
        let ghost before = *self;
        let found = self.find(name.as_str());
        let mut entries: Vec<(String, V)> = Vec::new();
        std::mem::swap(&mut entries, &mut self.entries);
        let ghost source = entries@;
        match found {
            Some(i) => {
                assert(before.rows()[i as int].0 == name@);
                entries.set(i, (name, value));
                let ghost at = i as int;
                assert(forall|j: int|
                    0 <= j < entries@.len() ==> #[trigger] entries@[j].0@ == source[j].0@);
                self.entries = entries;
                proof {
                    self.lemma_replaced(before, at, name@, value);
                }
            },
            None => {
                let mut at: usize = 0;
                while at < entries.len() && is_before(entries[at].0.as_str(), name.as_str())
                    invariant
                        at <= entries@.len(),
                        entries@ == source,
                        forall|j: int|
                            0 <= j < at ==> text_before(#[trigger] source[j].0@, name@),
                    decreases entries@.len() - at,
                {
                    at += 1;
                }
                proof {
                    assert forall|j: int| at <= j < source.len() implies text_before(
                        name@,
                        #[trigger] source[j].0@,
                    ) by {
                        assert(source[at as int].0@ != name@);
                        lemma_before_total(source[at as int].0@, name@);
                        if j > at {
                            lemma_before_transitive(name@, source[at as int].0@, source[j].0@);
                        }
                    }
                    assert(!before.has(name@)) by {
                        assert forall|i: int| 0 <= i < before.rows().len() implies
                            #[trigger] before.rows()[i].0 != name@ by {
                            assert(source[i].0@ != name@);
                        }
                    }
                }
                let ghost n = name@;
                entries.insert(at, (name, value));
                self.entries = entries;
                proof {
                    self.lemma_inserted(before, at as int, n, value);
                }
            },
        }
    }

    proof fn lemma_replaced(self, before: Self, at: int, name: Seq<char>, value: V)
        requires
            self.in_order(),
            before.in_order(),
            0 <= at < before.entries@.len(),
            before.entries@[at].0@ == name,
            self.entries@.len() == before.entries@.len(),
            self.entries@[at].0@ == name,
            self.entries@[at].1 == value,
            forall|j: int|
                0 <= j < before.entries@.len() && j != at ==> self.entries@[j]
                    == before.entries@[j],
        ensures
            self.has(name),
            before.has(name),
            self.value_of(name) == value,
            forall|other: Seq<char>|
                other != name ==> (#[trigger] self.has(other) == before.has(other)),
            forall|other: Seq<char>|
                other != name && before.has(other) ==> #[trigger] self.value_of(other)
                    == before.value_of(other),
    {
        assert(self.rows()[at].0 == name);
        assert(before.rows()[at].0 == name);
        Self::lemma_one_position(self.rows(), at, self.position_of(name));
        assert forall|other: Seq<char>| other != name implies #[trigger] self.has(other)
            == before.has(other) by {
            if self.has(other) {
                let p = self.position_of(other);
                assert(before.rows()[p].0 == other);
            }
            if before.has(other) {
                let p = before.position_of(other);
                assert(self.rows()[p].0 == other);
            }
        }
        assert forall|other: Seq<char>|
            other != name && before.has(other) implies #[trigger] self.value_of(other)
            == before.value_of(other) by {
            let p = before.position_of(other);
            assert(self.rows()[p].0 == other);
            Self::lemma_one_position(self.rows(), p, self.position_of(other));
        }
    }

    proof fn lemma_inserted(self, before: Self, at: int, name: Seq<char>, value: V)
        requires
            self.in_order(),
            before.in_order(),
            0 <= at <= before.entries@.len(),
            self.entries@.len() == before.entries@.len() + 1,
            self.entries@[at].0@ == name,
            self.entries@[at].1 == value,
            forall|j: int| 0 <= j < at ==> self.entries@[j] == before.entries@[j],
            forall|j: int|
                at <= j < before.entries@.len() ==> #[trigger] self.entries@[j + 1]
                    == before.entries@[j],
        ensures
            self.has(name),
            self.value_of(name) == value,
            forall|other: Seq<char>|
                other != name ==> (#[trigger] self.has(other) == before.has(other)),
            forall|other: Seq<char>|
                other != name && before.has(other) ==> #[trigger] self.value_of(other)
                    == before.value_of(other),
    {
        assert(self.rows()[at].0 == name);
        Self::lemma_one_position(self.rows(), at, self.position_of(name));
        assert forall|other: Seq<char>| other != name implies #[trigger] self.has(other)
            == before.has(other) by {
            if self.has(other) {
                let p = self.position_of(other);
                if p < at {
                    assert(before.rows()[p].0 == other);
                } else {
                    assert(self.entries@[(p - 1) + 1] == before.entries@[p - 1]);
                    assert(before.rows()[p - 1].0 == other);
                }
            }
            if before.has(other) {
                let p = before.position_of(other);
                if p < at {
                    assert(self.rows()[p].0 == other);
                } else {
                    assert(self.rows()[p + 1].0 == other);
                }
            }
        }
        assert forall|other: Seq<char>|
            other != name && before.has(other) implies #[trigger] self.value_of(other)
            == before.value_of(other) by {
            let p = before.position_of(other);
            let q = if p < at {
                p
            } else {
                p + 1
            };
            assert(self.rows()[q].0 == other);
            Self::lemma_one_position(self.rows(), q, self.position_of(other));
        }
    }

    /// Takes `name` and its value out of the table, where it has one.
    pub fn remove(&mut self, name: &str) -> (r: bool)
        ensures
            r == old(self).has(name@),
            !final(self).has(name@),
            forall|other: Seq<char>|
                other != name@ ==> (#[trigger] final(self).has(other) == old(self).has(other)),
            forall|other: Seq<char>|
                other != name@ && old(self).has(other) ==> #[trigger] final(self).value_of(other)
                    == old(self).value_of(other),
            final(self).contents() == old(self).contents().remove(name@),
    {
        proof {
            use_type_invariant(&*self);
        }
        let ghost before = *self;
        let found = self.find(name);
        match found {
            Some(i) => {
                let mut entries: Vec<(String, V)> = Vec::new();
                std::mem::swap(&mut entries, &mut self.entries);
                let _row = entries.remove(i);
                self.entries = entries;
                proof {
                    self.lemma_removed(before, i as int, name@);
                }
                true
            },
            None => {
                assert forall|i: int| 0 <= i < self.rows().len() implies #[trigger] self.rows()[i].0
                    != name@ by {
                    assert(self.entries@[i].0@ != name@);
                }
                false
            },
        }
    }

    proof fn lemma_removed(self, before: Self, at: int, name: Seq<char>)
        requires
            self.in_order(),
            before.in_order(),
            0 <= at < before.entries@.len(),
            before.entries@[at].0@ == name,
            self.entries@ == before.entries@.remove(at),
        ensures
            before.has(name),
            !self.has(name),
            forall|other: Seq<char>|
                other != name ==> (#[trigger] self.has(other) == before.has(other)),
            forall|other: Seq<char>|
                other != name && before.has(other) ==> #[trigger] self.value_of(other)
                    == before.value_of(other),
    {
        assert(before.rows()[at].0 == name);
        if self.has(name) {
            let p = self.position_of(name);
            let q = if p < at {
                p
            } else {
                p + 1
            };
            assert(before.rows()[q].0 == name);
            Self::lemma_one_position(before.rows(), q, at);
        }
        assert forall|other: Seq<char>| other != name implies #[trigger] self.has(other)
            == before.has(other) by {
            if self.has(other) {
                let p = self.position_of(other);
                if p < at {
                    assert(before.rows()[p].0 == other);
                } else {
                    assert(before.rows()[p + 1].0 == other);
                }
            }
            if before.has(other) {
                let p = before.position_of(other);
                if p < at {
                    assert(self.rows()[p].0 == other);
                } else {
                    assert(self.rows()[p - 1].0 == other);
                }
            }
        }
        assert forall|other: Seq<char>|
            other != name && before.has(other) implies #[trigger] self.value_of(other)
            == before.value_of(other) by {
            let p = before.position_of(other);
            let q = if p < at {
                p
            } else {
                p - 1
            };
            assert(self.rows()[q].0 == other);
            Self::lemma_one_position(self.rows(), q, self.position_of(other));
        }
    }
}

/// The first character in which two texts differ decides which one comes first; a text comes before
/// everything that goes on behind it.
pub proof fn law_first_difference_decides(front: Seq<char>, a: Seq<char>, b: Seq<char>)
    requires
        b.len() > 0,
        a.len() > 0 ==> a[0] != b[0],
    ensures
        text_before(front + a, front + b) <==> a.len() == 0 || a[0] < b[0],
    decreases front.len(),
{
    if front.len() > 0 {
        law_first_difference_decides(front.skip(1), a, b);
        assert((front + a).skip(1) =~= front.skip(1) + a);
        assert((front + b).skip(1) =~= front.skip(1) + b);
        assert((front + a)[0] == front[0] && (front + b)[0] == front[0]);
    } else {
        assert(front + a =~= a);
        assert(front + b =~= b);
    }
}

} // verus!
