use vstd::prelude::*;
use crate::property::{normalized, property_to_value, PageProperty, PropertyModel, PropertyValue};
use crate::text::chars_of;
use crate::time::Timestamp;

verus! {

/// Code-point order on texts; for UTF-8 this is the order of their bytes.
pub open spec fn key_lt(a: Seq<char>, b: Seq<char>) -> bool
    decreases a.len(),
{
    if a.len() == 0 {
        b.len() > 0
    } else if b.len() == 0 {
        false
    } else if a[0] < b[0] {
        true
    } else if a[0] == b[0] {
        key_lt(a.drop_first(), b.drop_first())
    } else {
        false
    }
}

pub proof fn lemma_key_lt_irreflexive(a: Seq<char>)
    ensures
        !key_lt(a, a),
    decreases a.len(),
{
    if a.len() > 0 {
        lemma_key_lt_irreflexive(a.drop_first());
    }
}

pub proof fn lemma_key_lt_asymmetric(a: Seq<char>, b: Seq<char>)
    ensures
        key_lt(a, b) ==> !key_lt(b, a),
    decreases a.len(),
{
    if a.len() > 0 && b.len() > 0 && a[0] == b[0] {
        lemma_key_lt_asymmetric(a.drop_first(), b.drop_first());
    }
}

pub proof fn lemma_key_lt_transitive(a: Seq<char>, b: Seq<char>, c: Seq<char>)
    ensures
        key_lt(a, b) && key_lt(b, c) ==> key_lt(a, c),
    decreases a.len(),
{
    if a.len() > 0 && b.len() > 0 && c.len() > 0 {
        lemma_key_lt_transitive(a.drop_first(), b.drop_first(), c.drop_first());
    }
}

pub proof fn lemma_key_lt_total(a: Seq<char>, b: Seq<char>)
    ensures
        a != b ==> key_lt(a, b) || key_lt(b, a),
    decreases a.len(),
{
    if a.len() > 0 && b.len() > 0 {
        lemma_key_lt_total(a.drop_first(), b.drop_first());
        if a[0] == b[0] && a.drop_first() == b.drop_first() {
            assert(a =~= seq![a[0]] + a.drop_first());
            assert(b =~= seq![b[0]] + b.drop_first());
        }
    } else if a.len() == 0 && b.len() == 0 {
        assert(a =~= b);
    }
}

/// Whether `a` comes before `b` in code-point order.
pub fn key_less(a: &str, b: &str) -> (r: bool)
    ensures
        r == key_lt(a@, b@),
{
    let x = chars_of(a);
    let y = chars_of(b);
    let mut i: usize = 0;
    assert(x@.subrange(0, x@.len() as int) =~= x@);
    assert(y@.subrange(0, y@.len() as int) =~= y@);
    while i < x.len() && i < y.len()
        invariant
            x@ == a@,
            y@ == b@,
            i <= x@.len(),
            i <= y@.len(),
            key_lt(a@, b@) == key_lt(
                x@.subrange(i as int, x@.len() as int),
                y@.subrange(i as int, y@.len() as int),
            ),
        decreases x@.len() - i,
    {
        let ghost xs = x@.subrange(i as int, x@.len() as int);
        let ghost ys = y@.subrange(i as int, y@.len() as int);
        assert(xs[0] == x@[i as int] && ys[0] == y@[i as int]);
        if x[i] < y[i] {
            return true;
        }
        if x[i] != y[i] {
            return false;
        }
        assert(xs.drop_first() =~= x@.subrange(i + 1, x@.len() as int));
        assert(ys.drop_first() =~= y@.subrange(i + 1, y@.len() as int));
        i = i + 1;
    }
    i == x.len() && i < y.len()
}

/// Pairs whose keys ascend strictly.
pub open spec fn ascending(s: Seq<(Seq<char>, PropertyModel)>) -> bool {
    forall|i: int, j: int| 0 <= i < j < s.len() ==> key_lt(#[trigger] s[i].0, #[trigger] s[j].0)
}

/// Where `k` stands among the keys of `s`, if it does.
pub open spec fn index_of_key(s: Seq<(Seq<char>, PropertyModel)>, k: Seq<char>) -> int {
    choose|i: int| 0 <= i < s.len() && #[trigger] s[i].0 == k
}

/// The map that a list of pairs with distinct keys stands for.
pub open spec fn map_of_pairs(s: Seq<(Seq<char>, PropertyModel)>) -> Map<Seq<char>, PropertyModel> {
    Map::new(
        |k: Seq<char>| exists|i: int| 0 <= i < s.len() && #[trigger] s[i].0 == k,
        |k: Seq<char>| s[index_of_key(s, k)].1,
    )
}

/// In ascending pairs each key stands at one place only.
pub proof fn lemma_ascending_unique(s: Seq<(Seq<char>, PropertyModel)>, i: int, j: int)
    requires
        ascending(s),
        0 <= i < s.len(),
        0 <= j < s.len(),
        s[i].0 == s[j].0,
    ensures
        i == j,
{
    lemma_key_lt_irreflexive(s[i].0);
    if i < j {
        assert(key_lt(s[i].0, s[j].0));
    } else if j < i {
        assert(key_lt(s[j].0, s[i].0));
    }
}

/// In ascending pairs, the map holds each pair.
pub proof fn lemma_lookup(s: Seq<(Seq<char>, PropertyModel)>, i: int)
    requires
        ascending(s),
        0 <= i < s.len(),
    ensures
        map_of_pairs(s).contains_key(s[i].0),
        map_of_pairs(s)[s[i].0] == s[i].1,
{
    let k = s[i].0;
    assert(exists|j: int| 0 <= j < s.len() && #[trigger] s[j].0 == k);
    let c = index_of_key(s, k);
    lemma_ascending_unique(s, i, c);
    assert(map_of_pairs(s).dom().contains(k));
    assert(map_of_pairs(s)[k] == s[c].1);
}

/// Two ascending lists of pairs that stand for the same map are the same list.
pub proof fn lemma_ascending_canonical(
    s1: Seq<(Seq<char>, PropertyModel)>,
    s2: Seq<(Seq<char>, PropertyModel)>,
)
    requires
        ascending(s1),
        ascending(s2),
        map_of_pairs(s1) == map_of_pairs(s2),
    ensures
        s1 == s2,
    decreases s1.len() + s2.len(),
{
    let m = map_of_pairs(s1);
    if s1.len() == 0 {
        if s2.len() > 0 {
            lemma_lookup(s2, 0);
        }
        assert(s1 =~= s2);
    } else if s2.len() == 0 {
        lemma_lookup(s1, 0);
    } else {
        lemma_lookup(s1, 0);
        lemma_lookup(s2, 0);
        let i = choose|i: int| 0 <= i < s1.len() && #[trigger] s1[i].0 == s2[0].0;
        let j = choose|j: int| 0 <= j < s2.len() && #[trigger] s2[j].0 == s1[0].0;
        lemma_key_lt_irreflexive(s1[0].0);
        lemma_key_lt_asymmetric(s1[0].0, s2[0].0);
        if i > 0 {
            assert(key_lt(s1[0].0, s1[i].0));
            if j > 0 {
                assert(key_lt(s2[0].0, s2[j].0));
            }
            lemma_ascending_unique(s2, 0, j);
        }
        lemma_ascending_unique(s1, 0, i);
        lemma_lookup(s1, 0);
        lemma_lookup(s2, 0);
        assert(s1[0] == s2[0]);
        let t1 = s1.drop_first();
        let t2 = s2.drop_first();
        assert forall|k: Seq<char>| #[trigger]
            map_of_pairs(t1).contains_key(k) == map_of_pairs(t2).contains_key(k) by {
            if map_of_pairs(t1).contains_key(k) {
                let a = choose|a: int| 0 <= a < t1.len() && #[trigger] t1[a].0 == k;
                lemma_lookup(s1, a + 1);
                let b = choose|b: int| 0 <= b < s2.len() && #[trigger] s2[b].0 == k;
                assert(key_lt(s1[0].0, s1[a + 1].0));
                if b == 0 {
                    lemma_key_lt_irreflexive(k);
                }
                assert(t2[b - 1].0 == k);
            }
            if map_of_pairs(t2).contains_key(k) {
                let b = choose|b: int| 0 <= b < t2.len() && #[trigger] t2[b].0 == k;
                lemma_lookup(s2, b + 1);
                let a = choose|a: int| 0 <= a < s1.len() && #[trigger] s1[a].0 == k;
                assert(key_lt(s2[0].0, s2[b + 1].0));
                if a == 0 {
                    lemma_key_lt_irreflexive(k);
                }
                assert(t1[a - 1].0 == k);
            }
        }
        assert forall|k: Seq<char>| #[trigger]
            map_of_pairs(t1).contains_key(k) implies map_of_pairs(t1)[k] == map_of_pairs(
            t2,
        )[k] by {
            let a = choose|a: int| 0 <= a < t1.len() && #[trigger] t1[a].0 == k;
            let b = choose|b: int| 0 <= b < t2.len() && #[trigger] t2[b].0 == k;
            lemma_lookup(t1, a);
            lemma_lookup(t2, b);
            lemma_lookup(s1, a + 1);
            lemma_lookup(s2, b + 1);
        }
        assert(map_of_pairs(t1) =~= map_of_pairs(t2));
        lemma_ascending_canonical(t1, t2);
        assert(s1 =~= seq![s1[0]] + t1);
        assert(s2 =~= seq![s2[0]] + t2);
    }
}

/// Adding a pair whose key is new adds it to the map.
proof fn lemma_insert_pair(s: Seq<(Seq<char>, PropertyModel)>, i: int, p: (Seq<char>, PropertyModel))
    requires
        ascending(s),
        ascending(s.insert(i, p)),
        0 <= i <= s.len(),
        forall|j: int| 0 <= j < s.len() ==> #[trigger] s[j].0 != p.0,
    ensures
        map_of_pairs(s.insert(i, p)) == map_of_pairs(s).insert(p.0, p.1),
{
    let n = s.insert(i, p);
    let m = map_of_pairs(s).insert(p.0, p.1);
    assert forall|k: Seq<char>| #[trigger] map_of_pairs(n).contains_key(k) == m.contains_key(k) by {
        if map_of_pairs(n).contains_key(k) {
            let a = choose|a: int| 0 <= a < n.len() && #[trigger] n[a].0 == k;
            if a < i {
                assert(s[a].0 == k);
            } else if a > i {
                assert(s[a - 1].0 == k);
            }
        }
        if map_of_pairs(s).contains_key(k) {
            let a = choose|a: int| 0 <= a < s.len() && #[trigger] s[a].0 == k;
            if a < i {
                assert(n[a].0 == k);
            } else {
                assert(n[a + 1].0 == k);
            }
        }
        if k == p.0 {
            assert(n[i].0 == k);
        }
    }
    assert forall|k: Seq<char>| #[trigger] map_of_pairs(n).contains_key(k) implies map_of_pairs(n)[k]
        == m[k] by {
        let a = choose|a: int| 0 <= a < n.len() && #[trigger] n[a].0 == k;
        lemma_lookup(n, a);
        if a < i {
            lemma_lookup(s, a);
        } else if a > i {
            lemma_lookup(s, a - 1);
        }
    }
    assert(map_of_pairs(n) =~= m);
}

/// Replacing the pair at a key replaces the value in the map.
proof fn lemma_update_pair(s: Seq<(Seq<char>, PropertyModel)>, i: int, p: (Seq<char>, PropertyModel))
    requires
        ascending(s),
        0 <= i < s.len(),
        s[i].0 == p.0,
    ensures
        ascending(s.update(i, p)),
        map_of_pairs(s.update(i, p)) == map_of_pairs(s).insert(p.0, p.1),
{
    let n = s.update(i, p);
    assert forall|a: int, b: int| 0 <= a < b < n.len() implies key_lt(#[trigger] n[a].0, #[trigger] n[b].0) by {
        assert(key_lt(s[a].0, s[b].0));
    }
    let m = map_of_pairs(s).insert(p.0, p.1);
    assert forall|k: Seq<char>| #[trigger] map_of_pairs(n).contains_key(k) == m.contains_key(k) by {
        if map_of_pairs(n).contains_key(k) {
            let a = choose|a: int| 0 <= a < n.len() && #[trigger] n[a].0 == k;
            assert(s[a].0 == k);
        }
        if map_of_pairs(s).contains_key(k) {
            let a = choose|a: int| 0 <= a < s.len() && #[trigger] s[a].0 == k;
            assert(n[a].0 == k);
        }
        if k == p.0 {
            assert(n[i].0 == k);
        }
    }
    assert forall|k: Seq<char>| #[trigger] map_of_pairs(n).contains_key(k) implies map_of_pairs(n)[k]
        == m[k] by {
        let a = choose|a: int| 0 <= a < n.len() && #[trigger] n[a].0 == k;
        lemma_lookup(n, a);
        if a != i {
            lemma_lookup(s, a);
            if k == p.0 {
                lemma_ascending_unique(s, a, i);
            }
        }
    }
    assert(map_of_pairs(n) =~= m);
}

/// The pairs of `m` in ascending key order.
pub open spec fn ascending_pairs(m: Map<Seq<char>, PropertyModel>) -> Seq<(Seq<char>, PropertyModel)> {
    choose|s: Seq<(Seq<char>, PropertyModel)>| ascending(s) && map_of_pairs(s) == m
}

/// A pair of a map as mathematics.
pub open spec fn pair_model(e: (String, PropertyValue)) -> (Seq<char>, PropertyModel) {
    (e.0@, e.1@)
}

/// Normalised values keyed by field name, held in ascending key order so that
/// whatever renders it sees the same order for the same contents.
///
/// The pairs live in a vector sorted by key rather than in a `HashMap` or
/// `BTreeMap` keyed by `String`: for text keys vstd's specifications of those
/// maps give no usable view of their contents, while a sorted vector lets the
/// map's contents and its rendering order both be stated and proved.
#[derive(Clone, Debug)]
pub struct PropertyMap {
    entries: Vec<(String, PropertyValue)>,
}

impl View for PropertyMap {
    type V = Map<Seq<char>, PropertyModel>;

    open spec fn view(&self) -> Map<Seq<char>, PropertyModel> {
        map_of_pairs(self.pairs())
    }
}

impl PropertyMap {
    /// The pairs in ascending key order.
    pub closed spec fn pairs(&self) -> Seq<(Seq<char>, PropertyModel)> {
        self.entries@.map_values(|e: (String, PropertyValue)| pair_model(e))
    }

    /// Keys ascend strictly, so each stands once.
    pub open spec fn wf(&self) -> bool {
        ascending(self.pairs())
    }

    /// The pairs are the contents in ascending key order.
    pub proof fn lemma_pairs_ascending(&self)
        requires
            self.wf(),
        ensures
            self.pairs() == ascending_pairs(self@),
    {
        let s = ascending_pairs(self@);
        assert(ascending(self.pairs()) && map_of_pairs(self.pairs()) == self@);
        lemma_ascending_canonical(self.pairs(), s);
    }

    /// The empty map.
    pub fn new() -> (r: PropertyMap)
        ensures
            r.wf(),
            r@ == Map::<Seq<char>, PropertyModel>::empty(),
            r.pairs().len() == 0,
    {
        let r = PropertyMap { entries: Vec::new() };
        assert(r.pairs() =~= Seq::empty());
        assert(r@ =~= Map::<Seq<char>, PropertyModel>::empty());
        r
    }

    /// The number of keys.
    pub fn len(&self) -> (r: usize)
        ensures
            r == self.pairs().len(),
    {
        self.entries.len()
    }

    /// Whether the map holds no key.
    pub fn is_empty(&self) -> (r: bool)
        requires
            self.wf(),
        ensures
            r == (self@ == Map::<Seq<char>, PropertyModel>::empty()),
            r == (self.pairs().len() == 0),
    {
        if self.entries.len() == 0 {
            assert(self@ =~= Map::<Seq<char>, PropertyModel>::empty());
            true
        } else {
            proof {
                lemma_lookup(self.pairs(), 0);
                assert(!Map::<Seq<char>, PropertyModel>::empty().contains_key(self.pairs()[0].0));
            }
            false
        }
    }

    /// The pairs in ascending key order.
    pub fn entries(&self) -> (r: &[(String, PropertyValue)])
        ensures
            r@.map_values(|e: (String, PropertyValue)| pair_model(e)) == self.pairs(),
    {
        self.entries.as_slice()
    }

    /// The value at `key`, if any.
    pub fn get(&self, key: &str) -> (r: Option<&PropertyValue>)
        requires
            self.wf(),
        ensures
            r is Some <==> self@.contains_key(key@),
            r matches Some(v) ==> v@ == self@[key@],
    {
        let mut i: usize = 0;
        while i < self.entries.len()
            invariant
                self.wf(),
                i <= self.pairs().len(),
                self.pairs().len() == self.entries@.len(),
                forall|j: int| 0 <= j < i ==> #[trigger] self.pairs()[j].0 != key@,
            decreases self.entries@.len() - i,
        {
            assert(self.pairs()[i as int] == pair_model(self.entries@[i as int]));
            if key_eq(self.entries[i].0.as_str(), key) {
                proof {
                    lemma_lookup(self.pairs(), i as int);
                }
                return Some(&self.entries[i].1);
            }
            i = i + 1;
        }
        None
    }

    /// Sets `key` to `value`, replacing the value it had.
    pub fn insert(&mut self, key: String, value: PropertyValue)
        requires
            old(self).wf(),
        ensures
            final(self).wf(),
            final(self)@ == old(self)@.insert(key@, value@),
    {
        let ghost s = self.pairs();
        let ghost p = (key@, value@);
        let mut i: usize = 0;
        while i < self.entries.len() && key_less(self.entries[i].0.as_str(), key.as_str())
            invariant
                self.pairs() == s,
                s.len() == self.entries@.len(),
                ascending(s),
                i <= s.len(),
                forall|j: int| 0 <= j < i ==> key_lt(#[trigger] s[j].0, key@),
            decreases self.entries@.len() - i,
        {
            assert(s[i as int] == pair_model(self.entries@[i as int]));
            i = i + 1;
        }
        if i < self.entries.len() && key_eq(self.entries[i].0.as_str(), key.as_str()) {
            assert(s[i as int] == pair_model(self.entries@[i as int]));
            self.entries.set(i, (key, value));
            proof {
                lemma_update_pair(s, i as int, p);
                assert(self.pairs() =~= s.update(i as int, p));
            }
        } else {
            proof {
                if i < s.len() {
                    assert(s[i as int] == pair_model(self.entries@[i as int]));
                    lemma_key_lt_total(s[i as int].0, key@);
                }
                assert forall|j: int| i <= j < s.len() implies key_lt(key@, #[trigger] s[j].0) by {
                    lemma_key_lt_total(s[i as int].0, key@);
                    if j > i {
                        lemma_key_lt_transitive(key@, s[i as int].0, s[j].0);
                    }
                }
                assert forall|j: int| 0 <= j < s.len() implies #[trigger] s[j].0 != p.0 by {
                    lemma_key_lt_irreflexive(key@);
                }
                let n = s.insert(i as int, p);
                assert forall|a: int, b: int| 0 <= a < b < n.len() implies key_lt(#[trigger] n[a].0, #[trigger] n[b].0) by {
                    if b < i {
                        assert(key_lt(s[a].0, s[b].0));
                    } else if b == i {
                    } else if a < i {
                        lemma_key_lt_transitive(s[a].0, key@, s[b - 1].0);
                    } else if a == i {
                    } else {
                        assert(key_lt(s[a - 1].0, s[b - 1].0));
                    }
                }
                lemma_insert_pair(s, i as int, p);
            }
            self.entries.insert(i, (key, value));
            assert(self.pairs() =~= s.insert(i as int, p));
        }
    }
}

/// Whether two texts are the same.
pub fn key_eq(a: &str, b: &str) -> (r: bool)
    ensures
        r == (a@ == b@),
{
    let x = chars_of(a);
    let y = chars_of(b);
    if x.len() != y.len() {
        return false;
    }
    let mut i: usize = 0;
    while i < x.len()
        invariant
            x@ == a@,
            y@ == b@,
            x@.len() == y@.len(),
            i <= x@.len(),
            forall|j: int| 0 <= j < i ==> x@[j] == y@[j],
        decreases x@.len() - i,
    {
        if x[i] != y[i] {
            return false;
        }
        i = i + 1;
    }
    assert(x@ =~= y@);
    true
}

/// A record of the remote workspace, with what the accessor reads of it.
#[derive(Clone, Debug)]
pub struct Page {
    pub id: String,
    pub last_edited_time: Timestamp,
    /// Each field's name and value.
    pub properties: Vec<(String, PageProperty)>,
}

/// The map of the fields that normalise to a value, keyed by name; of two
/// fields with one name the later one counts.
pub open spec fn normalized_fields(fields: Seq<(String, PageProperty)>) -> Map<
    Seq<char>,
    PropertyModel,
>
    decreases fields.len(),
{
    if fields.len() == 0 {
        Map::empty()
    } else {
        let m = normalized_fields(fields.drop_last());
        match normalized(fields.last().1) {
            Some(v) => m.insert(fields.last().0@, v),
            None => m,
        }
    }
}

/// The normalised properties of `page`: each field that carries a value,
/// keyed by its name.
pub fn notion_page_to_properties(page: &Page) -> (r: PropertyMap)
    ensures
        r.wf(),
        r@ == normalized_fields(page.properties@),
{
    let fields = &page.properties;
    let mut r = PropertyMap::new();
    let mut i: usize = 0;
    while i < fields.len()
        invariant
            i <= fields@.len(),
            r.wf(),
            r@ == normalized_fields(fields@.subrange(0, i as int)),
        decreases fields@.len() - i,
    {
        assert(fields@.subrange(0, i + 1).drop_last() =~= fields@.subrange(0, i as int));
        let (name, property) = &fields[i];
        match property_to_value(property) {
            Some(v) => r.insert(name.clone(), v),
            None => {},
        }
        i = i + 1;
    }
    assert(fields@.subrange(0, fields@.len() as int) =~= fields@);
    r
}

} // verus!
