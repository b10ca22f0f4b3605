//! The delivery journal's id set: the ids of external messages already submitted to the
//! thread, kept in byte order and bounded, so that redelivery after a restart is skipped.
use crate::text::owned;
use vstd::prelude::*;

verus! {

/// Largest number of ids the journal keeps; beyond it the smallest ids are dropped.
pub const JOURNAL_ID_LIMIT: usize = 10000;

/// Strict lexicographic order of character sequences, which is the byte order of their UTF-8
/// encodings (the order of Rust's `String`).
pub open spec fn str_lt(a: Seq<char>, b: Seq<char>) -> bool
    decreases a.len(),
{
    if a.len() == 0 {
        b.len() > 0
    } else if b.len() == 0 {
        false
    } else if a[0] != b[0] {
        a[0] < b[0]
    } else {
        str_lt(a.drop_first(), b.drop_first())
    }
}

pub proof fn lemma_str_lt_irreflexive(a: Seq<char>)
    ensures
        !str_lt(a, a),
    decreases a.len(),
{
    if a.len() > 0 {
        lemma_str_lt_irreflexive(a.drop_first());
    }
}

pub proof fn lemma_str_lt_total(a: Seq<char>, b: Seq<char>)
    ensures
        a == b || str_lt(a, b) || str_lt(b, a),
        !(str_lt(a, b) && str_lt(b, a)),
    decreases a.len(),
{
    if a.len() > 0 && b.len() > 0 {
        lemma_str_lt_total(a.drop_first(), b.drop_first());
        if a[0] == b[0] && a.drop_first() == b.drop_first() {
            assert forall|i: int| 0 <= i < a.len() implies a[i] == b[i] by {
                if i > 0 {
                    assert(a[i] == a.drop_first()[i - 1]);
                    assert(b[i] == b.drop_first()[i - 1]);
                }
            }
            assert(a =~= b);
        }
    } else if a.len() == 0 && b.len() == 0 {
        assert(a =~= b);
    }
}

pub proof fn lemma_str_lt_transitive(a: Seq<char>, b: Seq<char>, c: Seq<char>)
    requires
        str_lt(a, b),
        str_lt(b, c),
    ensures
        str_lt(a, c),
    decreases a.len(),
{
    if a.len() > 0 && b.len() > 0 && c.len() > 0 {
        if a[0] == b[0] && b[0] == c[0] {
            lemma_str_lt_transitive(a.drop_first(), b.drop_first(), c.drop_first());
        }
    }
}

/// Strictly increasing: sorted and free of duplicates.
pub open spec fn strictly_sorted(s: Seq<Seq<char>>) -> bool {
    forall|i: int, j: int| 0 <= i < j < s.len() ==> str_lt(#[trigger] s[i], #[trigger] s[j])
}

/// Rust's `Ord::cmp` on strings, as "less than".
pub fn string_lt(a: &String, b: &String) -> (r: bool)
    ensures
        r == str_lt(a@, b@),
{
    let x = crate::text::chars_of(a.as_str());
    let y = crate::text::chars_of(b.as_str());
    let mut i: usize = 0;
    proof {
        assert(a@.skip(0) == a@);
        assert(b@.skip(0) == b@);
    }
    while i < x.len() && i < y.len() && x[i] == y[i]
        invariant
            i <= x.len(),
            i <= y.len(),
            x@ == a@,
            y@ == b@,
            str_lt(a@, b@) == str_lt(a@.skip(i as int), b@.skip(i as int)),
        decreases x.len() - i,
    {
        proof {
            let sa = a@.skip(i as int);
            let sb = b@.skip(i as int);
            assert(sa[0] == sb[0]);
            assert(sa.drop_first() == a@.skip(i + 1));
            assert(sb.drop_first() == b@.skip(i + 1));
        }
        i = i + 1;
    }
    proof {
        let sa = a@.skip(i as int);
        let sb = b@.skip(i as int);
        if i < x.len() && i < y.len() {
            assert(sa[0] == x@[i as int]);
            assert(sb[0] == y@[i as int]);
        }
    }
    if i == x.len() {
        i < y.len()
    } else if i == y.len() {
        false
    } else {
        x[i] < y[i]
    }
}

/// The ids a journal holds, in increasing order.
pub struct DeliveryJournalIds {
    ids: Vec<String>,
}

impl View for DeliveryJournalIds {
    type V = Seq<Seq<char>>;

    closed spec fn view(&self) -> Seq<Seq<char>> {
        self.ids@.map_values(|s: String| s@)
    }
}

/// `s` with its smallest elements dropped until at most `JOURNAL_ID_LIMIT` remain.
pub open spec fn bounded(s: Seq<Seq<char>>) -> Seq<Seq<char>> {
    if s.len() > JOURNAL_ID_LIMIT {
        s.skip(s.len() - JOURNAL_ID_LIMIT)
    } else {
        s
    }
}

/// How many elements of `s` lie below `id`.
pub open spec fn count_below(s: Seq<Seq<char>>, id: Seq<char>) -> nat
    decreases s.len(),
{
    if s.len() == 0 {
        0
    } else {
        count_below(s.drop_last(), id) + if str_lt(s.last(), id) {
            1nat
        } else {
            0nat
        }
    }
}

/// `s` with `id` added at its place in the order (unchanged when already present).
pub open spec fn with_id(s: Seq<Seq<char>>, id: Seq<char>) -> Seq<Seq<char>> {
    if s.contains(id) {
        s
    } else {
        let p = count_below(s, id) as int;
        s.take(p).push(id) + s.skip(p)
    }
}

/// The journal after recording `id`.
pub open spec fn recorded(s: Seq<Seq<char>>, id: Seq<char>) -> Seq<Seq<char>> {
    bounded(with_id(s, id))
}

/// The ids held after an insertion are the ids held before, and the inserted one.
pub proof fn lemma_with_id_contains(s: Seq<Seq<char>>, id: Seq<char>)
    ensures
        forall|x: Seq<char>| with_id(s, id).contains(x) <==> (s.contains(x) || x == id),
{
    if !s.contains(id) {
        let p = count_below(s, id) as int;
        lemma_count_below_le(s, id);
        let w = with_id(s, id);
        assert forall|x: Seq<char>| w.contains(x) <==> (s.contains(x) || x == id) by {
            if w.contains(x) {
                let k = choose|k: int| 0 <= k < w.len() && w[k] == x;
                if k < p {
                    assert(s[k] == x);
                } else if k > p {
                    assert(s[k - 1] == x);
                }
            }
            if s.contains(x) {
                let k = choose|k: int| 0 <= k < s.len() && s[k] == x;
                if k < p {
                    assert(w[k] == x);
                } else {
                    assert(w[k + 1] == x);
                }
            }
            if x == id {
                assert(w[p] == x);
            }
        }
    }
}

proof fn lemma_count_below_le(s: Seq<Seq<char>>, id: Seq<char>)
    ensures
        count_below(s, id) <= s.len(),
    decreases s.len(),
{
    if s.len() > 0 {
        lemma_count_below_le(s.drop_last(), id);
    }
}

proof fn lemma_count_below_split(s: Seq<Seq<char>>, id: Seq<char>, p: int)
    requires
        0 <= p <= s.len(),
        forall|k: int| 0 <= k < p ==> str_lt(#[trigger] s[k], id),
        forall|k: int| p <= k < s.len() ==> !str_lt(#[trigger] s[k], id),
    ensures
        count_below(s, id) == p,
    decreases s.len(),
{
    if s.len() > 0 {
        let t = s.drop_last();
        if p == s.len() {
            assert forall|k: int| 0 <= k < p - 1 implies str_lt(#[trigger] t[k], id) by {
                assert(t[k] == s[k]);
            }
            lemma_count_below_split(t, id, p - 1);
            assert(str_lt(s[s.len() - 1], id));
        } else {
            assert forall|k: int| 0 <= k < p implies str_lt(#[trigger] t[k], id) by {
                assert(t[k] == s[k]);
            }
            assert forall|k: int| p <= k < t.len() implies !str_lt(#[trigger] t[k], id) by {
                assert(t[k] == s[k]);
            }
            lemma_count_below_split(t, id, p);
            assert(!str_lt(s[s.len() - 1], id));
        }
    }
}

impl DeliveryJournalIds {
    pub closed spec fn well_formed(&self) -> bool {
        strictly_sorted(self@)
    }

    /// An empty journal.
    pub fn new() -> (j: Self)
        ensures
            j@ == Seq::<Seq<char>>::empty(),
            j.well_formed(),
    {
        let j = DeliveryJournalIds { ids: Vec::new() };
        proof {
            assert(j@ =~= Seq::<Seq<char>>::empty());
        }
        j
    }

    /// Position of the first id not below `id`, and whether it equals `id`.
    fn locate(&self, id: &String) -> (r: (usize, bool))
        requires
            self.well_formed(),
        ensures
            r.0 <= self@.len(),
            forall|k: int| 0 <= k < r.0 ==> str_lt(#[trigger] self@[k], id@),
            r.0 < self@.len() ==> !str_lt(self@[r.0 as int], id@),
            r.1 == (r.0 < self@.len() && self@[r.0 as int] == id@),
            r.1 == self@.contains(id@),
    {
        let mut i: usize = 0;
        while i < self.ids.len() && string_lt(&self.ids[i], id)
            invariant
                i <= self.ids.len(),
                self@.len() == self.ids@.len(),
                forall|k: int| 0 <= k < i ==> str_lt(#[trigger] self@[k], id@),
            decreases self.ids.len() - i,
        {
            proof {
                assert(self@[i as int] == self.ids@[i as int]@);
            }
            i = i + 1;
        }
        let found = i < self.ids.len() && self.ids[i] == *id;
        proof {
            if i < self.ids.len() {
                assert(self@[i as int] == self.ids@[i as int]@);
            }
            if self@.contains(id@) {
                let k = choose|k: int| 0 <= k < self@.len() && self@[k] == id@;
                if k < i {
                    lemma_str_lt_irreflexive(id@);
                } else if k > i {
                    lemma_str_lt_total(self@[i as int], id@);
                    assert(str_lt(self@[i as int], self@[k]));
                    if self@[i as int] != id@ {
                        lemma_str_lt_transitive(id@, self@[i as int], self@[k]);
                        lemma_str_lt_irreflexive(id@);
                    }
                }
            }
        }
        (i, found)
    }

    /// Whether the journal holds `id`.
    pub fn contains(&self, id: &str) -> (r: bool)
        requires
            self.well_formed(),
        ensures
            r == self@.contains(id@),
    {
        let target = owned(id);
        let (_, found) = self.locate(&target);
        found
    }

    /// Adds `id` at its place in the order, then drops the smallest ids while more than
    /// `JOURNAL_ID_LIMIT` remain.
    pub fn record(&mut self, id: String)
        requires
            old(self).well_formed(),
        ensures
            final(self).well_formed(),
            final(self)@ == recorded(old(self)@, id@),
    {
        self.insert_sorted(id);
        let ghost inserted = self@;
        proof {
            assert(inserted.skip(0) == inserted);
        }
        while self.ids.len() > JOURNAL_ID_LIMIT
            invariant
                self.well_formed(),
                inserted.len() >= self@.len(),
                self@ == inserted.skip(inserted.len() - self@.len()),
                inserted.len() > JOURNAL_ID_LIMIT ==> self@.len() >= JOURNAL_ID_LIMIT,
                inserted.len() <= JOURNAL_ID_LIMIT ==> self@ == inserted,
            decreases self.ids.len(),
        {
            let ghost prev = self@;
            self.ids.remove(0);
            proof {
                assert(self@ =~= prev.drop_first());
                assert(prev.drop_first() =~= inserted.skip(inserted.len() - self@.len()));
                assert forall|i: int, j: int| 0 <= i < j < self@.len() implies str_lt(
                    #[trigger] self@[i],
                    #[trigger] self@[j],
                ) by {
                    assert(self@[i] == prev[i + 1]);
                    assert(self@[j] == prev[j + 1]);
                }
            }
        }
        proof {
            if inserted.len() > JOURNAL_ID_LIMIT {
                assert(self@.len() == JOURNAL_ID_LIMIT);
            }
        }
    }

    /// Adds `id` at its place in the order, unless present.
    fn insert_sorted(&mut self, id: String)
        requires
            old(self).well_formed(),
        ensures
            final(self).well_formed(),
            final(self)@ == with_id(old(self)@, id@),
    {
        let (p, found) = self.locate(&id);
        let ghost before = self@;
        proof {
            assert forall|k: int| p <= k < before.len() implies !str_lt(#[trigger] before[k], id@) by {
                if k > p {
                    assert(str_lt(before[p as int], before[k]));
                    if str_lt(before[k], id@) {
                        lemma_str_lt_transitive(before[p as int], before[k], id@);
                    }
                }
            }
            lemma_count_below_split(before, id@, p as int);
        }
        if !found {
            let ghost idv = id@;
            self.ids.insert(p, id);
            proof {
                assert(self@ =~= before.take(p as int).push(idv) + before.skip(p as int));
                assert forall|i: int, j: int| 0 <= i < j < self@.len() implies str_lt(
                    #[trigger] self@[i],
                    #[trigger] self@[j],
                ) by {
                    let s2 = self@;
                    if j < p {
                        assert(s2[i] == before[i] && s2[j] == before[j]);
                    } else if j == p {
                        assert(s2[i] == before[i]);
                    } else if i < p {
                        assert(s2[i] == before[i] && s2[j] == before[j - 1]);
                        assert(str_lt(before[i], idv));
                        if j - 1 > p {
                            assert(str_lt(before[p as int], before[j - 1]));
                        }
                        lemma_str_lt_total(before[p as int], idv);
                        if p < before.len() && j - 1 >= p {
                            if before[j - 1] != idv {
                                lemma_str_lt_total(before[j - 1], idv);
                            }
                            lemma_str_lt_transitive(before[i], idv, before[j - 1]);
                        }
                    } else if i == p {
                        assert(s2[j] == before[j - 1]);
                        lemma_str_lt_total(before[j - 1], idv);
                        if before[j - 1] == idv {
                            assert(before.contains(idv));
                        }
                    } else {
                        assert(s2[i] == before[i - 1] && s2[j] == before[j - 1]);
                    }
                }
            }
        } else {
            proof {
                assert(before.contains(id@));
            }
        }
        proof {
            assert(self@ == with_id(before, id@));
        }
    }

    /// The journal holding exactly the given ids (as loaded from the journal file).
    pub fn from_ids(ids: Vec<String>) -> (j: Self)
        ensures
            j.well_formed(),
            forall|x: Seq<char>| j@.contains(x) <==> ids@.map_values(|s: String| s@).contains(x),
    {
        let mut j = Self::new();
        let ghost all = ids@.map_values(|s: String| s@);
        for i in 0..ids.len()
            invariant
                j.well_formed(),
                all == ids@.map_values(|s: String| s@),
                forall|x: Seq<char>| j@.contains(x) <==> exists|t: int| 0 <= t < i && all[t] == x,
        {
            let ghost before = j@;
            j.insert_sorted(ids[i].clone());
            proof {
                lemma_with_id_contains(before, all[i as int]);
                assert forall|x: Seq<char>| j@.contains(x) <==> exists|t: int|
                    0 <= t < i + 1 && all[t] == x by {
                    if j@.contains(x) && x != all[i as int] {
                        assert(before.contains(x));
                    }
                    if x == all[i as int] {
                        assert(0 <= i < i + 1 && all[i as int] == x);
                    }
                    if exists|t: int| 0 <= t < i + 1 && all[t] == x {
                        let t = choose|t: int| 0 <= t < i + 1 && all[t] == x;
                        if t < i {
                            assert(before.contains(x));
                        }
                    }
                }
            }
        }
        proof {
            assert forall|x: Seq<char>| j@.contains(x) <==> all.contains(x) by {
                if all.contains(x) {
                    let t = choose|t: int| 0 <= t < all.len() && all[t] == x;
                    assert(0 <= t < ids@.len());
                }
                if j@.contains(x) {
                    let t = choose|t: int| 0 <= t < ids@.len() && all[t] == x;
                    assert(all[t] == x);
                }
            }
        }
        j
    }

    /// The ids, in increasing order, as they are written back to the journal file.
    pub fn ids(&self) -> (r: Vec<String>)
        ensures
            r@.map_values(|s: String| s@) == self@,
    {
        let r = crate::text::copy_strings(&self.ids);
        proof {
            assert(r@.map_values(|s: String| s@) =~= self@);
        }
        r
    }
}


/// A recorded id is remembered and nothing already held is lost, as long as the journal was
/// below its bound before the insertion.
pub proof fn law_recorded_id_is_remembered(s: Seq<Seq<char>>, id: Seq<char>)
    requires
        strictly_sorted(s),
        s.len() < JOURNAL_ID_LIMIT,
    ensures
        recorded(s, id).contains(id),
        forall|x: Seq<char>| s.contains(x) ==> recorded(s, id).contains(x),
        recorded(s, id).len() <= JOURNAL_ID_LIMIT,
{
    lemma_with_id_contains(s, id);
    lemma_with_id_len(s, id);
}

/// The journal never grows beyond its bound by recording.
pub proof fn law_recording_keeps_the_bound(s: Seq<Seq<char>>, id: Seq<char>)
    requires
        s.len() <= JOURNAL_ID_LIMIT,
    ensures
        recorded(s, id).len() <= JOURNAL_ID_LIMIT,
{
    lemma_with_id_len(s, id);
}

/// Recording the same id twice leaves the journal as recording it once.
pub proof fn law_recording_is_idempotent(s: Seq<Seq<char>>, id: Seq<char>)
    requires
        strictly_sorted(s),
    ensures
        recorded(recorded(s, id), id) == recorded(s, id),
{
    let w = with_id(s, id);
    let r = recorded(s, id);
    lemma_with_id_contains(s, id);
    lemma_with_id_len(s, id);
    lemma_with_id_sorted(s, id);
    if r.contains(id) {
        assert(with_id(r, id) == r);
        lemma_with_id_contains(r, id);
    } else {
        // `id` was dropped: the journal was over its bound and `id` lies among the dropped.
        let d = w.len() - JOURNAL_ID_LIMIT;
        assert(w.len() > JOURNAL_ID_LIMIT);
        assert(r == w.skip(d));
        let k = choose|k: int| 0 <= k < w.len() && w[k] == id;
        if k >= d {
            assert(r[k - d] == id);
        }
        assert(k < d);
        assert forall|j: int| 0 <= j < r.len() implies !str_lt(#[trigger] r[j], id) by {
            assert(r[j] == w[j + d]);
            assert(str_lt(w[k], w[j + d]));
            lemma_str_lt_total(id, r[j]);
        }
        lemma_count_below_split(r, id, 0);
        assert(with_id(r, id) == r.take(0).push(id) + r.skip(0));
        assert(r.skip(0) == r);
        let w2 = with_id(r, id);
        assert(w2.len() == JOURNAL_ID_LIMIT + 1);
        assert(w2.skip(1) =~= r);
    }
}

proof fn lemma_with_id_len(s: Seq<Seq<char>>, id: Seq<char>)
    ensures
        with_id(s, id).len() == if s.contains(id) { s.len() } else { s.len() + 1 },
        with_id(s, id).len() <= s.len() + 1,
{
    lemma_count_below_le(s, id);
}

proof fn lemma_with_id_sorted(s: Seq<Seq<char>>, id: Seq<char>)
    requires
        strictly_sorted(s),
    ensures
        strictly_sorted(with_id(s, id)),
{
    if !s.contains(id) {
        let p = count_below(s, id) as int;
        lemma_count_below_le(s, id);
        lemma_count_below_prefix(s, id);
        let w = with_id(s, id);
        assert forall|i: int, j: int| 0 <= i < j < w.len() implies str_lt(
            #[trigger] w[i],
            #[trigger] w[j],
        ) by {
            if j < p {
                assert(w[i] == s[i] && w[j] == s[j]);
            } else if j == p {
                assert(w[i] == s[i]);
            } else if i < p {
                assert(w[i] == s[i] && w[j] == s[j - 1]);
                lemma_str_lt_total(s[j - 1], id);
                if s[j - 1] != id {
                    lemma_str_lt_transitive(s[i], id, s[j - 1]);
                } else {
                    assert(s.contains(id));
                }
            } else if i == p {
                assert(w[j] == s[j - 1]);
                lemma_str_lt_total(s[j - 1], id);
                if s[j - 1] == id {
                    assert(s.contains(id));
                }
            } else {
                assert(w[i] == s[i - 1] && w[j] == s[j - 1]);
            }
        }
    }
}

/// In a strictly increasing sequence, the elements below `id` are exactly the first
/// `count_below(s, id)` ones.
proof fn lemma_count_below_prefix(s: Seq<Seq<char>>, id: Seq<char>)
    requires
        strictly_sorted(s),
    ensures
        forall|k: int| 0 <= k < count_below(s, id) ==> str_lt(#[trigger] s[k], id),
        forall|k: int| count_below(s, id) <= k < s.len() ==> !str_lt(#[trigger] s[k], id),
    decreases s.len(),
{
    if s.len() > 0 {
        let t = s.drop_last();
        assert forall|i: int, j: int| 0 <= i < j < t.len() implies str_lt(
            #[trigger] t[i],
            #[trigger] t[j],
        ) by {
            assert(t[i] == s[i] && t[j] == s[j]);
        }
        lemma_count_below_prefix(t, id);
        lemma_count_below_le(t, id);
        let c = count_below(t, id);
        if str_lt(s.last(), id) {
            // every earlier element lies below the last, hence below `id`
            assert forall|k: int| 0 <= k < s.len() implies str_lt(#[trigger] s[k], id) by {
                if k < s.len() - 1 {
                    lemma_str_lt_transitive(s[k], s.last(), id);
                }
            }
            if c < t.len() {
                assert(str_lt(s[c as int], id));
                assert(t[c as int] == s[c as int]);
            }
        } else {
            assert forall|k: int| 0 <= k < c implies str_lt(#[trigger] s[k], id) by {
                assert(t[k] == s[k]);
            }
            assert forall|k: int| c <= k < s.len() implies !str_lt(#[trigger] s[k], id) by {
                if k < s.len() - 1 {
                    assert(t[k] == s[k]);
                }
            }
        }
    }
}

} // verus!
