use vstd::prelude::*;
use vstd::string::StrSliceExecFns;

verus! {

/// One decoded (headword, definition) pair, as the entry source yields it.
#[derive(Debug, Clone)]
pub struct DictionaryEntry {
    pub text: String,
    pub definition: String,
}

/// One persisted row: every observed entry becomes its own row.
#[derive(Debug, Clone)]
pub struct IndexRecord {
    pub id: i64,
    pub text: String,
    pub def: String,
}

/// A row as the contracts see it: (id, headword, definition).
pub type RecordView = (int, Seq<char>, Seq<char>);

/// A lookup hit as the contracts see it: (id, definition).
pub type HitView = (int, Seq<char>);

pub open spec fn record_view(r: IndexRecord) -> RecordView {
    (r.id as int, r.text@, r.def@)
}

/// Ids strictly increase along the sequence.
pub open spec fn ids_increasing(s: Seq<RecordView>) -> bool {
    forall|i: int, j: int| 0 <= i < j < s.len() ==> #[trigger] s[i].0 < #[trigger] s[j].0
}

/// The rows whose headword is exactly `t`, as (id, definition), in store order.
pub open spec fn exact_hits(s: Seq<RecordView>, t: Seq<char>) -> Seq<HitView>
    decreases s.len(),
{
    if s.len() == 0 {
        seq![]
    } else {
        let prev = exact_hits(s.drop_last(), t);
        if s.last().1 == t {
            prev.push((s.last().0, s.last().2))
        } else {
            prev
        }
    }
}

/// `p` occurs in `t` as a contiguous run.
pub open spec fn contains_seq(t: Seq<char>, p: Seq<char>) -> bool {
    exists|k: int| 0 <= k && k + p.len() <= t.len() && #[trigger] t.subrange(k, k + p.len()) == p
}

/// A headword wrapped in the bracket convention: `【w】`.
pub open spec fn bracketed(w: Seq<char>) -> Seq<char> {
    seq!['【'] + w + seq!['】']
}

/// The rows whose headword holds `【w】`, as (id, definition), in store order.
pub open spec fn pattern_hits(s: Seq<RecordView>, w: Seq<char>) -> Seq<HitView>
    decreases s.len(),
{
    if s.len() == 0 {
        seq![]
    } else {
        let prev = pattern_hits(s.drop_last(), w);
        if contains_seq(s.last().1, bracketed(w)) {
            prev.push((s.last().0, s.last().2))
        } else {
            prev
        }
    }
}

/// The rows a build writes for `es`: ids 1, 2, ... in the order observed.
pub open spec fn built_rows(es: Seq<DictionaryEntry>) -> Seq<RecordView> {
    Seq::new(es.len(), |i: int| (i + 1, es[i].text@, es[i].definition@))
}

pub open spec fn hit_views(v: Seq<(i64, String)>) -> Seq<HitView> {
    v.map_values(|h: (i64, String)| (h.0 as int, h.1@))
}

/// Every hit of `exact_hits` is a row of `s` with that headword.
pub proof fn lemma_exact_hits_from_rows(s: Seq<RecordView>, t: Seq<char>, j: int)
    requires
        0 <= j < exact_hits(s, t).len(),
    ensures
        exists|i: int|
            0 <= i < s.len() && #[trigger] s[i].1 == t && (s[i].0, s[i].2) == exact_hits(s, t)[j],
    decreases s.len(),
{
    let prev = exact_hits(s.drop_last(), t);
    if j < prev.len() {
        lemma_exact_hits_from_rows(s.drop_last(), t, j);
        let i = choose|i: int|
            0 <= i < s.drop_last().len() && #[trigger] s.drop_last()[i].1 == t
                && (s.drop_last()[i].0, s.drop_last()[i].2) == prev[j];
        assert(s[i] == s.drop_last()[i]);
    } else {
        assert(s[s.len() - 1].1 == t);
    }
}

/// Exact lookups come back in ascending id order on a store whose ids increase.
pub proof fn lemma_exact_hits_ordered(s: Seq<RecordView>, t: Seq<char>)
    requires
        ids_increasing(s),
    ensures
        forall|a: int, b: int|
            0 <= a < b < exact_hits(s, t).len() ==> #[trigger] exact_hits(s, t)[a].0
                < #[trigger] exact_hits(s, t)[b].0,
    decreases s.len(),
{
    if s.len() > 0 {
        let d = s.drop_last();
        assert(ids_increasing(d)) by {
            assert forall|i: int, j: int| 0 <= i < j < d.len() implies #[trigger] d[i].0 < #[trigger] d[j].0 by {
                assert(d[i] == s[i] && d[j] == s[j]);
            }
        }
        lemma_exact_hits_ordered(d, t);
        let prev = exact_hits(d, t);
        assert forall|a: int, b: int|
            0 <= a < b < exact_hits(s, t).len() implies #[trigger] exact_hits(s, t)[a].0
                < #[trigger] exact_hits(s, t)[b].0 by {
            if b >= prev.len() {
                lemma_exact_hits_from_rows(d, t, a);
                let i = choose|i: int|
                    0 <= i < d.len() && #[trigger] d[i].1 == t && (d[i].0, d[i].2) == prev[a];
                assert(d[i] == s[i]);
                assert(s[i].0 < s[s.len() - 1].0);
            }
        }
    }
}


/// The characters of `s`, one by one.
pub fn chars_of(s: &str) -> (r: Vec<char>)
    ensures
        r@ == s@,
{
    let n = s.unicode_len();
    let mut r: Vec<char> = Vec::new();
    let mut i: usize = 0;
    while i < n
        invariant
            n == s@.len(),
            i <= n,
            r@ == s@.take(i as int),
        decreases n - i,
    {
        r.push(s.get_char(i));
        assert(r@ =~= s@.take(i + 1));
        i = i + 1;
    }
    assert(r@ =~= s@);
    r
}

/// Whether `p` occurs in `t` at position `k`.
fn occurs_at(t: &Vec<char>, p: &Vec<char>, k: usize) -> (r: bool)
    requires
        k + p@.len() <= t@.len(),
    ensures
        r == (t@.subrange(k as int, k + p@.len()) == p@),
{
    let tl = t.len();
    let mut j: usize = 0;
    while j < p.len()
        invariant
            tl == t@.len(),
            k + p@.len() <= t@.len(),
            j <= p@.len(),
            forall|m: int| 0 <= m < j ==> t@[k + m] == p@[m],
        decreases p@.len() - j,
    {
        if t[k + j] != p[j] {
            assert(t@.subrange(k as int, k + p@.len())[j as int] != p@[j as int]);
            return false;
        }
        j = j + 1;
    }
    assert(t@.subrange(k as int, k + p@.len()) =~= p@);
    true
}

/// Whether `p` occurs in `t` as a contiguous run.
pub fn contains_chars(t: &Vec<char>, p: &Vec<char>) -> (r: bool)
    ensures
        r == contains_seq(t@, p@),
{
    if p.len() == 0 {
        assert(t@.subrange(0, 0 + p@.len() as int) =~= p@);
        return true;
    }
    if p.len() > t.len() {
        return false;
    }
    let last = t.len() - p.len();
    let mut k: usize = 0;
    while k <= last
        invariant
            last + p@.len() == t@.len(),
            t@.len() <= usize::MAX,
            p@.len() > 0,
            k <= last + 1,
            forall|m: int| 0 <= m < k ==> #[trigger] t@.subrange(m, m + p@.len()) != p@,
        decreases last + 1 - k,
    {
        if occurs_at(t, p, k) {
            return true;
        }
        k = k + 1;
    }
    false
}

/// An index store: the rows of one dictionary, ids strictly increasing in the
/// order the entries were observed. Rows are only ever appended.
pub struct IndexStore {
    records: Vec<IndexRecord>,
}

impl View for IndexStore {
    type V = Seq<RecordView>;

    closed spec fn view(&self) -> Seq<RecordView> {
        self.records@.map_values(|r: IndexRecord| record_view(r))
    }
}

impl IndexStore {
    pub open spec fn wf(&self) -> bool {
        ids_increasing(self@)
    }

    /// On a well-formed store, exact lookups come back in ascending id order.
    pub proof fn lemma_lookup_exact_ascending(&self, t: Seq<char>)
        requires
            self.wf(),
        ensures
            forall|a: int, b: int|
                0 <= a < b < exact_hits(self@, t).len() ==> #[trigger] exact_hits(self@, t)[a].0
                    < #[trigger] exact_hits(self@, t)[b].0,
    {
        lemma_exact_hits_ordered(self@, t);
    }

    /// A store with no rows.
    pub fn new() -> (r: IndexStore)
        ensures
            r.wf(),
            r@.len() == 0,
    {
        IndexStore { records: Vec::new() }
    }

    /// The number of rows.
    pub fn len(&self) -> (r: usize)
        ensures
            r == self@.len(),
    {
        self.records.len()
    }

    /// The id of the last row, if any.
    pub fn last_id(&self) -> (r: Option<i64>)
        ensures
            self@.len() == 0 ==> r is None,
            self@.len() > 0 ==> r == Some(self@.last().0 as i64),
    {
        if self.records.len() == 0 {
            None
        } else {
            Some(self.records[self.records.len() - 1].id)
        }
    }

    /// Appends a stored row; refused (and the store left as it is) unless
    /// `id` is greater than every id already held.
    pub fn push_row(&mut self, id: i64, text: String, def: String) -> (r: bool)
        requires
            old(self).wf(),
        ensures
            final(self).wf(),
            r == (old(self)@.len() == 0 || old(self)@.last().0 < id),
            r ==> final(self)@ == old(self)@.push((id as int, text@, def@)),
            !r ==> final(self)@ == old(self)@,
    {
        let ok = match self.last_id() {
            None => true,
            Some(l) => l < id,
        };
        if ok {
            let ghost before = self@;
            self.records.push(IndexRecord { id, text, def });
            assert(self@ =~= before.push((id as int, text@, def@)));
            assert forall|i: int, j: int| 0 <= i < j < self@.len() implies #[trigger] self@[i].0
                < #[trigger] self@[j].0 by {
                if j == self@.len() - 1 && i < j {
                    assert(self@[i] == before[i]);
                    assert(before[i].0 <= before.last().0);
                }
            }
        }
        ok
    }

    /// Builds a store from a decoded entry sequence: one row per entry, ids
    /// 1, 2, ... in the order observed, nothing merged.
    pub fn build(entries: &Vec<DictionaryEntry>) -> (r: IndexStore)
        requires
            entries@.len() < i64::MAX,
        ensures
            r.wf(),
            r@ == built_rows(entries@),
    {
        let mut s = IndexStore::new();
        let mut i: usize = 0;
        while i < entries.len()
            invariant
                entries@.len() < i64::MAX,
                i <= entries@.len(),
                s.wf(),
                s@ == built_rows(entries@.take(i as int)),
            decreases entries@.len() - i,
        {
            let e = &entries[i];
            let ok = s.push_row((i + 1) as i64, e.text.clone(), e.definition.clone());
            assert(ok);
            assert(s@ =~= built_rows(entries@.take(i + 1)));
            i = i + 1;
        }
        assert(entries@.take(i as int) =~= entries@);
        s
    }

    /// All rows whose headword is exactly `text`, as (id, definition), in
    /// ascending id order.
    pub fn lookup_exact(&self, text: &String) -> (r: Vec<(i64, String)>)
        ensures
            hit_views(r@) == exact_hits(self@, text@),
    {
        let mut r: Vec<(i64, String)> = Vec::new();
        let mut i: usize = 0;
        while i < self.records.len()
            invariant
                i <= self@.len(),
                hit_views(r@) == exact_hits(self@.take(i as int), text@),
            decreases self@.len() - i,
        {
            let rec = &self.records[i];
            assert(self@.take(i + 1).drop_last() =~= self@.take(i as int));
            if rec.text == *text {
                r.push((rec.id, rec.def.clone()));
            }
            assert(hit_views(r@) =~= exact_hits(self@.take(i + 1), text@));
            i = i + 1;
        }
        assert(self@.take(i as int) =~= self@);
        r
    }

    /// All rows whose headword holds `【word】`, as (id, definition), in
    /// ascending id order.
    pub fn lookup_pattern(&self, word: &String) -> (r: Vec<(i64, String)>)
        ensures
            hit_views(r@) == pattern_hits(self@, word@),
    {
        let mut pat: Vec<char> = Vec::new();
        pat.push('【');
        let mut w = chars_of(word.as_str());
        pat.append(&mut w);
        pat.push('】');
        assert(pat@ =~= bracketed(word@));
        let mut r: Vec<(i64, String)> = Vec::new();
        let mut i: usize = 0;
        while i < self.records.len()
            invariant
                i <= self@.len(),
                pat@ == bracketed(word@),
                hit_views(r@) == pattern_hits(self@.take(i as int), word@),
            decreases self@.len() - i,
        {
            let rec = &self.records[i];
            assert(self@.take(i + 1).drop_last() =~= self@.take(i as int));
            let t = chars_of(rec.text.as_str());
            if contains_chars(&t, &pat) {
                r.push((rec.id, rec.def.clone()));
            }
            assert(hit_views(r@) =~= pattern_hits(self@.take(i + 1), word@));
            i = i + 1;
        }
        assert(self@.take(i as int) =~= self@);
        r
    }
}

} // verus!
