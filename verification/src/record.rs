//! A record: the mapping one data row converts to.
//!
//! Keys are held in strictly increasing lexicographic order and inserting an
//! existing key replaces its value, so a record behaves as a
//! `BTreeMap<String, _>` does: duplicate column names keep only the last
//! value, and serialization emits keys in sorted order.

use vstd::prelude::*;

use crate::model::{JsonModel, JsonValue};
use crate::strorder::{lemma_lex_transitive, lemma_lex_trichotomy, lex_lt, str_cmp};

verus! {

/// One record field in the model: a key and its value.
pub type FieldModel = (Seq<char>, JsonModel);

/// Inserts a key-value pair into a key-sorted field sequence: the pair goes
/// before the first key not below `k`, replacing it when it equals `k`.
pub open spec fn insert_pair(s: Seq<FieldModel>, k: Seq<char>, v: JsonModel) -> Seq<FieldModel>
    decreases s.len(),
{
    if s.len() == 0 {
        seq![(k, v)]
    } else if lex_lt(s[0].0, k) {
        seq![s[0]] + insert_pair(s.skip(1), k, v)
    } else if s[0].0 == k {
        seq![(k, v)] + s.skip(1)
    } else {
        seq![(k, v)] + s
    }
}

/// Keys appear in strictly increasing lexicographic order.
pub open spec fn keys_sorted(s: Seq<FieldModel>) -> bool {
    forall|i: int, j: int| 0 <= i < j < s.len() ==> lex_lt(#[trigger] s[i].0, #[trigger] s[j].0)
}

/// Where `insert_pair` puts the new pair: at the first position whose key is
/// not below `k`, replacing that position's pair when its key equals `k`.
pub proof fn lemma_insert_pair_at(s: Seq<FieldModel>, k: Seq<char>, v: JsonModel, idx: int)
    requires
        0 <= idx <= s.len(),
        forall|j: int| 0 <= j < idx ==> lex_lt(#[trigger] s[j].0, k),
        idx < s.len() ==> !lex_lt(s[idx].0, k),
    ensures
        insert_pair(s, k, v) == if idx < s.len() && s[idx].0 == k {
            s.take(idx) + seq![(k, v)] + s.skip(idx + 1)
        } else {
            s.take(idx) + seq![(k, v)] + s.skip(idx)
        },
    decreases idx,
{
    if idx == 0 {
        if s.len() == 0 {
            assert(insert_pair(s, k, v) =~= s.take(0) + seq![(k, v)] + s.skip(0));
        } else if s[0].0 == k {
            assert(insert_pair(s, k, v) =~= s.take(0) + seq![(k, v)] + s.skip(1));
        } else {
            assert(insert_pair(s, k, v) =~= s.take(0) + seq![(k, v)] + s.skip(0));
        }
    } else {
        let t = s.skip(1);
        assert(lex_lt(s[0].0, k));
        assert(forall|j: int| 0 <= j < idx - 1 ==> lex_lt(#[trigger] t[j].0, k)) by {
            assert(forall|j: int| 0 <= j < idx - 1 ==> t[j] == s[j + 1]);
        }
        assert(idx - 1 < t.len() ==> !lex_lt(t[idx - 1].0, k));
        lemma_insert_pair_at(t, k, v, idx - 1);
        if idx < s.len() && s[idx].0 == k {
            assert(t[idx - 1].0 == k);
            assert(insert_pair(s, k, v) == seq![s[0]] + (t.take(idx - 1) + seq![(k, v)] + t.skip(
                idx,
            )));
            assert(seq![s[0]] + (t.take(idx - 1) + seq![(k, v)] + t.skip(idx)) =~= s.take(idx)
                + seq![(k, v)] + s.skip(idx + 1));
        } else {
            assert(insert_pair(s, k, v) == seq![s[0]] + (t.take(idx - 1) + seq![(k, v)] + t.skip(
                idx - 1,
            )));
            assert(seq![s[0]] + (t.take(idx - 1) + seq![(k, v)] + t.skip(idx - 1)) =~= s.take(idx)
                + seq![(k, v)] + s.skip(idx));
        }
    }
}

/// Every key of `insert_pair(s, k, v)` is `k` or a key of `s`.
pub proof fn lemma_insert_pair_keys(s: Seq<FieldModel>, k: Seq<char>, v: JsonModel)
    ensures
        forall|j: int|
            0 <= j < insert_pair(s, k, v).len() ==> (#[trigger] insert_pair(s, k, v)[j].0 == k
                || exists|i: int| 0 <= i < s.len() && #[trigger] s[i].0 == insert_pair(s, k, v)[j].0),
    decreases s.len(),
{
    let r = insert_pair(s, k, v);
    if s.len() == 0 {
    } else if lex_lt(s[0].0, k) {
        let t = s.skip(1);
        lemma_insert_pair_keys(t, k, v);
        assert forall|j: int| 0 <= j < r.len() implies (#[trigger] r[j].0 == k
            || exists|i: int| 0 <= i < s.len() && #[trigger] s[i].0 == r[j].0) by {
            if j == 0 {
                assert(s[0].0 == r[0].0);
            } else {
                assert(r[j] == insert_pair(t, k, v)[j - 1]);
                if insert_pair(t, k, v)[j - 1].0 != k {
                    let i = choose|i: int| 0 <= i < t.len() && #[trigger] t[i].0 == insert_pair(
                        t,
                        k,
                        v,
                    )[j - 1].0;
                    assert(s[i + 1].0 == r[j].0);
                }
            }
        }
    } else if s[0].0 == k {
        assert forall|j: int| 0 <= j < r.len() implies (#[trigger] r[j].0 == k
            || exists|i: int| 0 <= i < s.len() && #[trigger] s[i].0 == r[j].0) by {
            if j > 0 {
                assert(s[j] == r[j]);
            }
        }
    } else {
        assert forall|j: int| 0 <= j < r.len() implies (#[trigger] r[j].0 == k
            || exists|i: int| 0 <= i < s.len() && #[trigger] s[i].0 == r[j].0) by {
            if j > 0 {
                assert(s[j - 1] == r[j]);
            }
        }
    }
}

/// The mapping one data row converts to: fields with lexicographically sorted
/// keys, later insertions of an existing key replacing the earlier value.
pub struct Record {
    pairs: Vec<(String, JsonValue)>,
}

impl View for Record {
    type V = Seq<FieldModel>;

    closed spec fn view(&self) -> Seq<FieldModel> {
        self.pairs@.map_values(|p: (String, JsonValue)| (p.0@, p.1@))
    }
}

impl DeepView for Record {
    type V = Seq<FieldModel>;

    open spec fn deep_view(&self) -> Seq<FieldModel> {
        self@
    }
}

impl Record {
    /// The record's keys are strictly sorted.
    pub open spec fn wf(&self) -> bool {
        keys_sorted(self@)
    }

    /// An empty record.
    pub fn new() -> (r: Record)
        ensures
            r@ == Seq::<FieldModel>::empty(),
            r.wf(),
    {
        let r = Record { pairs: Vec::new() };
        proof {
            assert(r@ =~= Seq::<FieldModel>::empty());
        }
        r
    }

    /// How many fields the record holds.
    pub fn len(&self) -> (n: usize)
        ensures
            n == self@.len(),
    {
        self.pairs.len()
    }

    /// The field at position `i`, in key order.
    pub fn field_at(&self, i: usize) -> (p: &(String, JsonValue))
        requires
            i < self@.len(),
        ensures
            (p.0@, p.1@) == self@[i as int],
    {
        &self.pairs[i]
    }

    /// Inserts a field, keeping keys sorted; an existing key keeps its place
    /// and takes the new value.
    pub fn insert(&mut self, key: String, value: JsonValue)
        requires
            old(self).wf(),
        ensures
            final(self).wf(),
            final(self)@ == insert_pair(old(self)@, key@, value@),
    {
        let ghost s = self@;
        let n = self.pairs.len();
        let mut idx: usize = 0;
        let mut equal: bool = false;
        loop
            invariant_except_break
                !equal,
            invariant
                self == old(self),
                s == self@,
                n == self.pairs@.len(),
                idx <= n,
                forall|j: int| 0 <= j < idx ==> lex_lt(#[trigger] s[j].0, key@),
            ensures
                self == old(self),
                s == self@,
                idx <= n,
                forall|j: int| 0 <= j < idx ==> lex_lt(#[trigger] s[j].0, key@),
                idx < n ==> !lex_lt(s[idx as int].0, key@),
                equal <==> (idx < n && s[idx as int].0 == key@),
            decreases n - idx,
        {
            if idx >= n {
                break;
            }
            assert(self@[idx as int] == (self.pairs@[idx as int].0@, self.pairs@[idx as int].1@));
            let c = str_cmp(self.pairs[idx].0.as_str(), key.as_str());
            if c < 0 {
                assert(lex_lt(s[idx as int].0, key@));
                idx = idx + 1;
            } else {
                if c == 0 {
                    equal = true;
                }
                break;
            }
        }
        proof {
            lemma_insert_pair_at(s, key@, value@, idx as int);
        }
        if equal {
            self.pairs.remove(idx);
            self.pairs.insert(idx, (key, value));
            proof {
                assert(self@ =~= s.take(idx as int) + seq![(key@, value@)] + s.skip(idx as int + 1));
            }
        } else {
            self.pairs.insert(idx, (key, value));
            proof {
                assert(self@ =~= s.take(idx as int) + seq![(key@, value@)] + s.skip(idx as int));
            }
        }
        proof {
            lemma_insert_sorted(s, key@, value@, idx as int, self@);
        }
    }
}

/// Inserting at the found position keeps the keys strictly sorted.
proof fn lemma_insert_sorted(
    s: Seq<FieldModel>,
    k: Seq<char>,
    v: JsonModel,
    idx: int,
    r: Seq<FieldModel>,
)
    requires
        keys_sorted(s),
        0 <= idx <= s.len(),
        forall|j: int| 0 <= j < idx ==> lex_lt(#[trigger] s[j].0, k),
        idx < s.len() ==> !lex_lt(s[idx].0, k),
        r == if idx < s.len() && s[idx].0 == k {
            s.take(idx) + seq![(k, v)] + s.skip(idx + 1)
        } else {
            s.take(idx) + seq![(k, v)] + s.skip(idx)
        },
    ensures
        keys_sorted(r),
{
    if idx < s.len() {
        lemma_lex_trichotomy(s[idx].0, k);
    }
    assert forall|i: int, j: int| 0 <= i < j < r.len() implies lex_lt(
        #[trigger] r[i].0,
        #[trigger] r[j].0,
    ) by {
        let shift: int = if idx < s.len() && s[idx].0 == k {
            1
        } else {
            0
        };
        if i < idx {
            assert(r[i] == s[i]);
        }
        if j < idx {
            assert(r[j] == s[j]);
        }
        if i > idx {
            assert(r[i] == s[i - 1 + shift]);
        }
        if j > idx {
            assert(r[j] == s[j - 1 + shift]);
        }
        if i < idx && j == idx {
            assert(lex_lt(s[i].0, k));
        } else if i == idx && j > idx {
            // k is below the key that follows the insertion point
            if shift == 1 {
                assert(lex_lt(s[idx].0, s[j - 1 + shift].0));
            } else {
                assert(!lex_lt(s[idx].0, k) && s[idx].0 != k);
                if j - 1 + shift == idx {
                    assert(lex_lt(k, s[idx].0));
                } else {
                    assert(lex_lt(s[idx].0, s[j - 1 + shift].0));
                    lemma_lex_transitive(k, s[idx].0, s[j - 1 + shift].0);
                }
            }
        } else if i < idx && j > idx {
            assert(i < j - 1 + shift);
            assert(lex_lt(s[i].0, s[j - 1 + shift].0));
        }
    }
}

} // verus!
