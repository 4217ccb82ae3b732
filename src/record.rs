use vstd::prelude::*;

use crate::json::JsonValue;

verus! {

/// The field map that a list of members denotes: a later member with the
/// same name replaces an earlier one.
pub open spec fn members_map(s: Seq<(String, JsonValue)>) -> Map<Seq<char>, JsonValue>
    decreases s.len(),
{
    if s.len() == 0 {
        Map::empty()
    } else {
        members_map(s.drop_last()).insert(s.last().0@, s.last().1)
    }
}

/// The names that occur among the members.
pub open spec fn member_names(s: Seq<(String, JsonValue)>) -> Set<Seq<char>> {
    Set::new(|k: Seq<char>| exists|i: int| 0 <= i < s.len() && #[trigger] s[i].0@ == k)
}

pub open spec fn names_unique(s: Seq<(String, JsonValue)>) -> bool {
    forall|i: int, j: int|
        0 <= i < s.len() && 0 <= j < s.len() && i != j ==> #[trigger] s[i].0@ != #[trigger] s[j].0@
}

/// A normalized document chunk: field names, each at most once, with their
/// JSON values.
#[derive(Debug, PartialEq)]
pub struct CanonicalRecord {
    fields: Vec<(String, JsonValue)>,
}

impl View for CanonicalRecord {
    type V = Map<Seq<char>, JsonValue>;

    closed spec fn view(&self) -> Map<Seq<char>, JsonValue> {
        members_map(self.fields@)
    }
}

pub proof fn lemma_members_names(s: Seq<(String, JsonValue)>)
    ensures
        members_map(s).dom() == member_names(s),
    decreases s.len(),
{
    if s.len() > 0 {
        lemma_members_names(s.drop_last());
        let p = s.drop_last();
        assert forall|k: Seq<char>| #[trigger] member_names(s).contains(k) <==> (
        member_names(p).contains(k) || k == s.last().0@) by {
            if member_names(s).contains(k) {
                let i = choose|i: int| 0 <= i < s.len() && #[trigger] s[i].0@ == k;
                if i < p.len() {
                    assert(p[i].0@ == k);
                }
            }
            if member_names(p).contains(k) {
                let i = choose|i: int| 0 <= i < p.len() && #[trigger] p[i].0@ == k;
                assert(s[i].0@ == k);
            }
            if k == s.last().0@ {
                assert(s[s.len() - 1].0@ == k);
            }
        }
        assert(members_map(s).dom() =~= member_names(s));
    } else {
        assert(member_names(s) =~= Set::empty());
        assert(members_map(s).dom() =~= member_names(s));
    }
}

proof fn lemma_members_update(s: Seq<(String, JsonValue)>, i: int, m: (String, JsonValue))
    requires
        0 <= i < s.len(),
        s[i].0@ == m.0@,
        forall|j: int| i < j < s.len() ==> #[trigger] s[j].0@ != m.0@,
    ensures
        members_map(s.update(i, m)) == members_map(s).insert(m.0@, m.1),
    decreases s.len(),
{
    let t = s.update(i, m);
    if i == s.len() - 1 {
        assert(t.drop_last() =~= s.drop_last());
        assert(members_map(t) =~= members_map(s).insert(m.0@, m.1));
    } else {
        assert(t.drop_last() =~= s.drop_last().update(i, m));
        lemma_members_update(s.drop_last(), i, m);
        assert(s[s.len() - 1].0@ != m.0@);
        assert(members_map(t) =~= members_map(s).insert(m.0@, m.1));
    }
}

impl CanonicalRecord {
    pub closed spec fn wf(&self) -> bool {
        names_unique(self.fields@)
    }

    /// A record with no fields.
    pub fn new() -> (r: CanonicalRecord)
        ensures
            r.wf(),
            r@ == Map::<Seq<char>, JsonValue>::empty(),
    {
        CanonicalRecord { fields: Vec::new() }
    }

    /// Sets field `name` to `value`, replacing what it held.
    pub fn insert(&mut self, name: String, value: JsonValue)
        requires
            old(self).wf(),
        ensures
            final(self).wf(),
            final(self)@ == old(self)@.insert(name@, value),
    {
        let n = self.fields.len();
        let mut i: usize = 0;
        while i < n
            invariant
                n == self.fields.len(),
                self == old(self),
                names_unique(self.fields@),
                forall|j: int| 0 <= j < i ==> #[trigger] self.fields@[j].0@ != name@,
            decreases n - i,
        {
            if self.fields[i].0 == name {
                let ghost s = self.fields@;
                assert forall|j: int| i < j < s.len() implies #[trigger] s[j].0@ != name@ by {
                    assert(s[i as int].0@ != s[j].0@);
                }
                proof {
                    lemma_members_update(s, i as int, (name, value));
                }
                self.fields[i] = (name, value);
                assert(self.fields@ =~= s.update(i as int, (name, value)));
                return;
            }
            i = i + 1;
        }
        let ghost s = self.fields@;
        self.fields.push((name, value));
        assert(self.fields@.drop_last() =~= s);
    }

    /// The record that a JSON object's members make, in their order: a later
    /// member with a name already seen replaces the earlier value.
    pub fn from_members(members: Vec<(String, JsonValue)>) -> (r: CanonicalRecord)
        ensures
            r.wf(),
            r@ == members_map(members@),
            r@.dom() == member_names(members@),
    {
        let ghost s = members@;
        let mut r = CanonicalRecord::new();
        let mut rest = members;
        let n = rest.len();
        let mut i: usize = 0;
        while i < n
            invariant
                n == s.len(),
                i <= n,
                rest@ == s.skip(i as int),
                r.wf(),
                r@ == members_map(s.take(i as int)),
            decreases n - i,
        {
            let m = rest.remove(0);
            assert(m == s[i as int]);
            r.insert(m.0, m.1);
            assert(s.take(i + 1).drop_last() =~= s.take(i as int));
            i = i + 1;
            assert(rest@ =~= s.skip(i as int));
        }
        assert(s.take(n as int) =~= s);
        proof {
            lemma_members_names(s);
        }
        r
    }

    /// The value of field `name`, if the record has it.
    pub fn get(&self, name: &str) -> (r: Option<&JsonValue>)
        requires
            self.wf(),
        ensures
            r == (if self@.contains_key(name@) { Some(&self@[name@]) } else { None }),
    {
        let key = name.to_owned();
        let n = self.fields.len();
        let mut i: usize = n;
        while i > 0
            invariant
                n == self.fields.len(),
                key@ == name@,
                i <= n,
                forall|j: int| i <= j < n ==> #[trigger] self.fields@[j].0@ != name@,
            decreases i,
        {
            i = i - 1;
            if self.fields[i].0 == key {
                proof {
                    lemma_members_last(self.fields@, i as int);
                }
                return Some(&self.fields[i].1);
            }
        }
        proof {
            lemma_members_names(self.fields@);
        }
        None
    }
}

proof fn lemma_members_last(s: Seq<(String, JsonValue)>, i: int)
    requires
        0 <= i < s.len(),
        forall|j: int| i < j < s.len() ==> #[trigger] s[j].0@ != s[i].0@,
    ensures
        members_map(s).contains_key(s[i].0@),
        members_map(s)[s[i].0@] == s[i].1,
    decreases s.len(),
{
    if i < s.len() - 1 {
        lemma_members_last(s.drop_last(), i);
        assert(s[s.len() - 1].0@ != s[i].0@);
    }
}

} // verus!
