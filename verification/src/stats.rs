use vstd::prelude::*;

use crate::text::{chars_of, string_of};

verus! {

// ---------------------------------------------------------------------------
// Lexicographic order on character sequences (the order of `String` keys).
// ---------------------------------------------------------------------------

/// `a` sorts strictly before `b`, comparing characters by code point.
pub open spec fn lex_lt(a: Seq<char>, b: Seq<char>) -> bool
    decreases a.len(),
{
    if b.len() == 0 {
        false
    } else if a.len() == 0 {
        true
    } else if a[0] != b[0] {
        a[0] < b[0]
    } else {
        lex_lt(a.drop_first(), b.drop_first())
    }
}

/// No sequence sorts before itself.
pub proof fn lemma_lex_irreflexive(a: Seq<char>)
    ensures
        !lex_lt(a, a),
    decreases a.len(),
{
    if a.len() > 0 {
        lemma_lex_irreflexive(a.drop_first());
    }
}

/// The order is transitive.
pub proof fn lemma_lex_transitive(a: Seq<char>, b: Seq<char>, c: Seq<char>)
    requires
        lex_lt(a, b),
        lex_lt(b, c),
    ensures
        lex_lt(a, c),
    decreases a.len(),
{
    if a.len() > 0 && b.len() > 0 && c.len() > 0 && a[0] == b[0] && b[0] == c[0] {
        lemma_lex_transitive(a.drop_first(), b.drop_first(), c.drop_first());
    }
}

/// Two different sequences are ordered one way or the other.
pub proof fn lemma_lex_total(a: Seq<char>, b: Seq<char>)
    requires
        a != b,
    ensures
        lex_lt(a, b) || lex_lt(b, a),
    decreases a.len(),
{
    if a.len() == 0 {
        if b.len() == 0 {
            assert(a =~= b);
        }
    } else if b.len() == 0 {
    } else if a[0] == b[0] {
        if a.drop_first() == b.drop_first() {
            assert(a =~= seq![a[0]] + a.drop_first());
            assert(b =~= seq![b[0]] + b.drop_first());
        }
        lemma_lex_total(a.drop_first(), b.drop_first());
    }
}

/// No two sequences sort before each other.
pub proof fn lemma_lex_asymmetric(a: Seq<char>, b: Seq<char>)
    requires
        lex_lt(a, b),
    ensures
        !lex_lt(b, a),
{
    if lex_lt(b, a) {
        lemma_lex_transitive(a, b, a);
        lemma_lex_irreflexive(a);
    }
}

/// Compares `a` and `b`: negative, zero or positive as `a` sorts before, equal to, or after `b`.
pub fn lex_compare(a: &[char], b: &[char]) -> (r: i8)
    ensures
        r < 0 <==> lex_lt(a@, b@),
        r == 0 <==> a@ == b@,
        r > 0 <==> lex_lt(b@, a@),
{
    let mut i: usize = 0;
    assert(a@.skip(0) == a@);
    assert(b@.skip(0) == b@);
    while i < a.len() && i < b.len() && a[i] == b[i]
        invariant
            i <= a@.len(),
            i <= b@.len(),
            a@.take(i as int) == b@.take(i as int),
            lex_lt(a@, b@) == lex_lt(a@.skip(i as int), b@.skip(i as int)),
            lex_lt(b@, a@) == lex_lt(b@.skip(i as int), a@.skip(i as int)),
        decreases a@.len() - i,
    {
        assert(a@.skip(i as int).drop_first() == a@.skip(i + 1));
        assert(b@.skip(i as int).drop_first() == b@.skip(i + 1));
        assert(a@.take(i + 1) == a@.take(i as int).push(a@[i as int]));
        assert(b@.take(i + 1) == b@.take(i as int).push(b@[i as int]));
        i = i + 1;
    }
    if i == a.len() && i == b.len() {
        assert(a@ == a@.take(i as int));
        assert(b@ == b@.take(i as int));
        proof {
            lemma_lex_irreflexive(a@);
        }
        0
    } else if i == a.len() {
        assert(a@ == a@.take(i as int));
        assert(a@ != b@ ==> true);
        assert(a@ != b@) by {
            assert(a@.len() != b@.len());
        }
        -1
    } else if i == b.len() {
        assert(b@ == b@.take(i as int));
        assert(a@ != b@) by {
            assert(a@.len() != b@.len());
        }
        1
    } else {
        assert(a@[i as int] != b@[i as int]);
        assert(a@ != b@);
        if a[i] < b[i] {
            -1
        } else {
            1
        }
    }
}

// ---------------------------------------------------------------------------
// Per-day totals.
// ---------------------------------------------------------------------------

/// Totals of one day of logged work.
#[derive(Debug, Clone, Copy, PartialEq, Eq)]
pub struct DayStats {
    pub work_secs: u64,
    pub helping_secs: u64,
    pub sessions: u32,
}

impl Default for DayStats {
    fn default() -> (r: Self)
        ensures
            r == (DayStats { work_secs: 0, helping_secs: 0, sessions: 0 }),
    {
        DayStats { work_secs: 0, helping_secs: 0, sessions: 0 }
    }
}

/// The totals of a day with nothing logged.
pub open spec fn empty_day() -> DayStats {
    DayStats { work_secs: 0, helping_secs: 0, sessions: 0 }
}

/// `d` with the given amounts added.
pub open spec fn add_day(d: DayStats, work_secs: u64, helping_secs: u64, sessions: u32) -> DayStats {
    DayStats {
        work_secs: (d.work_secs + work_secs) as u64,
        helping_secs: (d.helping_secs + helping_secs) as u64,
        sessions: (d.sessions + sessions) as u32,
    }
}

/// One day and its totals.
pub struct DayRecord {
    pub date: String,
    pub stats: DayStats,
}

/// Entries sorted strictly by date.
pub open spec fn sorted(s: Seq<(Seq<char>, DayStats)>) -> bool {
    forall|i: int, j: int| 0 <= i < j < s.len() ==> lex_lt(#[trigger] s[i].0, #[trigger] s[j].0)
}

/// The totals stored for `date`, if any.
pub open spec fn lookup(s: Seq<(Seq<char>, DayStats)>, date: Seq<char>) -> Option<DayStats>
    decreases s.len(),
{
    if s.len() == 0 {
        None
    } else if s[0].0 == date {
        Some(s[0].1)
    } else {
        lookup(s.drop_first(), date)
    }
}

/// `s` with `date` mapped to `v`, keeping the entries in date order.
pub open spec fn upsert(s: Seq<(Seq<char>, DayStats)>, date: Seq<char>, v: DayStats) -> Seq<(Seq<char>, DayStats)>
    decreases s.len(),
{
    if s.len() == 0 {
        seq![(date, v)]
    } else if s[0].0 == date {
        seq![(date, v)] + s.drop_first()
    } else if lex_lt(date, s[0].0) {
        seq![(date, v)] + s
    } else {
        seq![s[0]] + upsert(s.drop_first(), date, v)
    }
}

/// The totals of `date`, or an empty day.
pub open spec fn day_or_empty(s: Seq<(Seq<char>, DayStats)>, date: Seq<char>) -> DayStats {
    match lookup(s, date) {
        Some(d) => d,
        None => empty_day(),
    }
}

/// Entries before position `i` all sort before `date`: `upsert` leaves them in front.
pub proof fn lemma_upsert_prefix(s: Seq<(Seq<char>, DayStats)>, date: Seq<char>, v: DayStats, i: int)
    requires
        0 <= i <= s.len(),
        forall|j: int| 0 <= j < i ==> lex_lt(#[trigger] s[j].0, date),
    ensures
        upsert(s, date, v) == s.take(i) + upsert(s.skip(i), date, v),
        lookup(s, date) == lookup(s.skip(i), date),
    decreases i,
{
    if i == 0 {
        assert(s.skip(0) == s);
        assert(s.take(0) + upsert(s, date, v) == upsert(s, date, v));
    } else {
        lemma_lex_irreflexive(date);
        lemma_lex_asymmetric(s[0].0, date);
        let t = s.drop_first();
        assert forall|j: int| 0 <= j < i - 1 implies lex_lt(#[trigger] t[j].0, date) by {
            assert(t[j] == s[j + 1]);
        }
        lemma_upsert_prefix(t, date, v, i - 1);
        assert(t.skip(i - 1) == s.skip(i));
        assert(s.take(i) == seq![s[0]] + t.take(i - 1));
        assert(upsert(s, date, v) == seq![s[0]] + upsert(t, date, v));
    }
}

/// A date that no entry carries is not found.
pub proof fn lemma_lookup_absent(s: Seq<(Seq<char>, DayStats)>, date: Seq<char>)
    requires
        forall|j: int| 0 <= j < s.len() ==> #[trigger] s[j].0 != date,
    ensures
        lookup(s, date) is None,
    decreases s.len(),
{
    if s.len() > 0 {
        let t = s.drop_first();
        assert forall|j: int| 0 <= j < t.len() implies #[trigger] t[j].0 != date by {
            assert(t[j] == s[j + 1]);
        }
        lemma_lookup_absent(t, date);
    }
}

/// Every date `upsert` leaves in the entries is either the new one or an old one.
pub proof fn lemma_upsert_keys(s: Seq<(Seq<char>, DayStats)>, date: Seq<char>, v: DayStats, j: int)
    requires
        0 <= j < upsert(s, date, v).len(),
    ensures
        upsert(s, date, v)[j].0 == date || exists|i: int| 0 <= i < s.len() && s[i].0 == upsert(s, date, v)[j].0,
        upsert(s, date, v).len() == s.len() || upsert(s, date, v).len() == s.len() + 1,
    decreases s.len(),
{
    if s.len() == 0 {
    } else if s[0].0 == date {
        if j > 0 {
            assert(upsert(s, date, v)[j] == s[j]);
        }
    } else if lex_lt(date, s[0].0) {
        if j > 0 {
            assert(upsert(s, date, v)[j] == s[j - 1]);
        }
    } else {
        let t = s.drop_first();
        if j > 0 {
            lemma_upsert_keys(t, date, v, j - 1);
            assert(upsert(s, date, v)[j] == upsert(t, date, v)[j - 1]);
            if upsert(t, date, v)[j - 1].0 != date {
                let i = choose|i: int| 0 <= i < t.len() && t[i].0 == upsert(t, date, v)[j - 1].0;
                assert(s[i + 1] == t[i]);
            }
        } else {
            assert(upsert(s, date, v)[0] == s[0]);
        }
        if upsert(t, date, v).len() > 0 {
            lemma_upsert_keys(t, date, v, 0);
        }
    }
}

/// Storing a day keeps the entries in date order.
pub proof fn law_upsert_keeps_order(s: Seq<(Seq<char>, DayStats)>, date: Seq<char>, v: DayStats)
    requires
        sorted(s),
    ensures
        sorted(upsert(s, date, v)),
    decreases s.len(),
{
    let u = upsert(s, date, v);
    if s.len() == 0 {
    } else if s[0].0 == date {
        assert forall|i: int, j: int| 0 <= i < j < u.len() implies lex_lt(#[trigger] u[i].0, #[trigger] u[j].0) by {
            assert(u[j] == s[j]);
            if i > 0 {
                assert(u[i] == s[i]);
            }
        }
    } else if lex_lt(date, s[0].0) {
        assert forall|i: int, j: int| 0 <= i < j < u.len() implies lex_lt(#[trigger] u[i].0, #[trigger] u[j].0) by {
            assert(u[j] == s[j - 1]);
            if i > 0 {
                assert(u[i] == s[i - 1]);
            } else if j > 1 {
                lemma_lex_transitive(date, s[0].0, s[j - 1].0);
            }
        }
    } else {
        let t = s.drop_first();
        assert(sorted(t)) by {
            assert forall|i: int, j: int| 0 <= i < j < t.len() implies lex_lt(#[trigger] t[i].0, #[trigger] t[j].0) by {
                assert(t[i] == s[i + 1] && t[j] == s[j + 1]);
            }
        }
        law_upsert_keeps_order(t, date, v);
        lemma_lex_total(s[0].0, date);
        let ut = upsert(t, date, v);
        assert forall|i: int, j: int| 0 <= i < j < u.len() implies lex_lt(#[trigger] u[i].0, #[trigger] u[j].0) by {
            assert(u[j] == ut[j - 1]);
            if i > 0 {
                assert(u[i] == ut[i - 1]);
            } else {
                lemma_upsert_keys(t, date, v, j - 1);
                if ut[j - 1].0 != date {
                    let k = choose|k: int| 0 <= k < t.len() && t[k].0 == ut[j - 1].0;
                    assert(s[k + 1] == t[k]);
                }
            }
        }
    }
}

/// What a read gives back after a write: looking a date up after storing it finds
/// the stored totals; every other date keeps its totals.
pub proof fn law_lookup_after_upsert(s: Seq<(Seq<char>, DayStats)>, date: Seq<char>, v: DayStats, other: Seq<char>)
    ensures
        lookup(upsert(s, date, v), date) == Some(v),
        other != date ==> lookup(upsert(s, date, v), other) == lookup(s, other),
    decreases s.len(),
{
    let u = upsert(s, date, v);
    assert(u[0].0 == date || u[0] == s[0]);
    if s.len() == 0 {
        assert(u.drop_first() =~= Seq::<(Seq<char>, DayStats)>::empty());
        assert(lookup(u.drop_first(), other) is None);
    } else if s[0].0 == date {
        assert(u.drop_first() =~= s.drop_first());
        if other != date {
            assert(lookup(u, other) == lookup(u.drop_first(), other));
            assert(lookup(s, other) == lookup(s.drop_first(), other));
        }
    } else if lex_lt(date, s[0].0) {
        assert(u.drop_first() =~= s);
        if other != date {
            assert(lookup(u, other) == lookup(u.drop_first(), other));
        }
    } else {
        law_lookup_after_upsert(s.drop_first(), date, v, other);
        assert(u.drop_first() =~= upsert(s.drop_first(), date, v));
        assert(u[0] == s[0]);
    }
}

/// A map from dates to day totals, kept in ascending date order.
pub struct DailyStats {
    entries: Vec<DayRecord>,
}

impl View for DailyStats {
    type V = Seq<(Seq<char>, DayStats)>;

    closed spec fn view(&self) -> Seq<(Seq<char>, DayStats)> {
        self.entries@.map_values(|r: DayRecord| (r.date@, r.stats))
    }
}

impl DailyStats {
    #[verifier::type_invariant]
    closed spec fn inv(&self) -> bool {
        sorted(self@)
    }

    /// An empty map.
    pub fn new() -> (r: Self)
        ensures
            r@ == Seq::<(Seq<char>, DayStats)>::empty(),
    {
        let r = DailyStats { entries: Vec::new() };
        assert(r@ =~= Seq::<(Seq<char>, DayStats)>::empty());
        r
    }

    /// Number of days; the days are kept in strictly ascending date order.
    pub fn len(&self) -> (n: usize)
        ensures
            n == self@.len(),
            sorted(self@),
    {
        proof {
            use_type_invariant(self);
        }
        self.entries.len()
    }

    /// Whether no day is stored.
    pub fn is_empty(&self) -> (b: bool)
        ensures
            b == (self@.len() == 0),
    {
        self.entries.len() == 0
    }

    /// The date of the `i`-th day in ascending order.
    pub fn date_at(&self, i: usize) -> (r: &String)
        requires
            i < self@.len(),
        ensures
            r@ == self@[i as int].0,
    {
        &self.entries[i].date
    }

    /// Where `date` is, or would go: every entry before the position sorts before `date`.
    fn position(&self, date: &[char]) -> (r: (usize, bool))
        ensures
            r.0 <= self@.len(),
            forall|j: int| 0 <= j < r.0 ==> lex_lt(#[trigger] self@[j].0, date@),
            r.1 <==> (r.0 < self@.len() && self@[r.0 as int].0 == date@),
            r.0 < self@.len() && !r.1 ==> lex_lt(date@, self@[r.0 as int].0),
    {
        let n = self.entries.len();
        let mut i: usize = 0;
        while i < n
            invariant
                n == self@.len(),
                i <= n,
                forall|j: int| 0 <= j < i ==> lex_lt(#[trigger] self@[j].0, date@),
            decreases n - i,
        {
            let key = chars_of(self.entries[i].date.as_str());
            let c = lex_compare(key.as_slice(), date);
            assert(key@ == self@[i as int].0);
            if c == 0 {
                return (i, true);
            } else if c > 0 {
                return (i, false);
            }
            i = i + 1;
        }
        (i, false)
    }

    /// The totals stored for `date`, if any.
    pub fn get(&self, date: &str) -> (r: Option<DayStats>)
        ensures
            r == lookup(self@, date@),
    {
        proof {
            use_type_invariant(self);
        }
        let key = chars_of(date);
        let (i, found) = self.position(key.as_slice());
        proof {
            lemma_upsert_prefix(self@, date@, empty_day(), i as int);
        }
        if found {
            assert(self@.skip(i as int)[0] == self@[i as int]);
            Some(self.entries[i].stats)
        } else {
            proof {
                let t = self@.skip(i as int);
                assert forall|j: int| 0 <= j < t.len() implies #[trigger] t[j].0 != date@ by {
                    assert(t[j] == self@[i + j]);
                    if j > 0 {
                        assert(lex_lt(self@[i as int].0, self@[i + j].0));
                        lemma_lex_transitive(date@, self@[i as int].0, self@[i + j].0);
                    }
                    lemma_lex_irreflexive(date@);
                }
                lemma_lookup_absent(t, date@);
            }
            None
        }
    }

    /// Stores `v` as the totals of `date`, replacing what was there.
    pub fn set(&mut self, date: &str, v: DayStats)
        ensures
            final(self)@ == upsert(old(self)@, date@, v),
    {
        proof {
            use_type_invariant(&*self);
        }
        let key = chars_of(date);
        let (i, found) = self.position(key.as_slice());
        let ghost s = self@;
        proof {
            lemma_upsert_prefix(s, date@, v, i as int);
        }
        if found {
            assert(s.skip(i as int)[0].0 == date@);
            assert(upsert(s.skip(i as int), date@, v) == seq![(date@, v)] + s.skip(i as int).drop_first());
            let mut e: Vec<DayRecord> = Vec::new();
            std::mem::swap(&mut e, &mut self.entries);
            e[i].stats = v;
            let ghost ev = e@.map_values(|r: DayRecord| (r.date@, r.stats));
            assert(ev =~= s.update(i as int, (date@, v)));
            assert(sorted(ev)) by {
                assert forall|a: int, b: int| 0 <= a < b < ev.len() implies lex_lt(#[trigger] ev[a].0, #[trigger] ev[b].0) by {
                    assert(ev[a].0 == s[a].0 && ev[b].0 == s[b].0);
                }
            }
            self.entries = e;
            assert(self@ =~= s.take(i as int) + (seq![(date@, v)] + s.skip(i as int).drop_first()));
        } else if i < self.entries.len() {
            assert(upsert(s.skip(i as int), date@, v) == seq![(date@, v)] + s.skip(i as int));
            let rec = DayRecord { date: string_of(key.as_slice()), stats: v };
            let mut e: Vec<DayRecord> = Vec::new();
            std::mem::swap(&mut e, &mut self.entries);
            e.insert(i, rec);
            let ghost ev = e@.map_values(|r: DayRecord| (r.date@, r.stats));
            assert(ev =~= s.take(i as int) + (seq![(date@, v)] + s.skip(i as int)));
            assert(sorted(ev)) by {
                assert forall|a: int, b: int| 0 <= a < b < ev.len() implies lex_lt(#[trigger] ev[a].0, #[trigger] ev[b].0) by {
                    if b == i {
                    } else if a == i {
                        if b > i + 1 {
                            lemma_lex_transitive(date@, s[i as int].0, s[b - 1].0);
                        }
                    } else if a > i {
                        assert(ev[a] == s[a - 1] && ev[b] == s[b - 1]);
                    } else if b > i {
                        assert(ev[b] == s[b - 1]);
                    }
                }
            }
            self.entries = e;
            assert(self@ =~= s.take(i as int) + (seq![(date@, v)] + s.skip(i as int)));
        } else {
            assert(s.skip(i as int) == Seq::<(Seq<char>, DayStats)>::empty());
            let rec = DayRecord { date: string_of(key.as_slice()), stats: v };
            let mut e: Vec<DayRecord> = Vec::new();
            std::mem::swap(&mut e, &mut self.entries);
            e.push(rec);
            let ghost ev = e@.map_values(|r: DayRecord| (r.date@, r.stats));
            assert(ev =~= s.push((date@, v)));
            assert(sorted(ev)) by {
                assert forall|a: int, b: int| 0 <= a < b < ev.len() implies lex_lt(#[trigger] ev[a].0, #[trigger] ev[b].0) by {
                    if b < i {
                        assert(ev[a] == s[a] && ev[b] == s[b]);
                    }
                }
            }
            self.entries = e;
            assert(self@ =~= s.take(i as int) + seq![(date@, v)]);
        }
    }

    /// Adds to the totals of `date` (an empty day when it has none yet).
    pub fn add(&mut self, date: &str, work_secs: u64, helping_secs: u64, sessions: u32)
        requires
            day_or_empty(old(self)@, date@).work_secs + work_secs <= u64::MAX,
            day_or_empty(old(self)@, date@).helping_secs + helping_secs <= u64::MAX,
            day_or_empty(old(self)@, date@).sessions + sessions <= u32::MAX,
        ensures
            final(self)@ == upsert(old(self)@, date@, add_day(day_or_empty(old(self)@, date@), work_secs, helping_secs, sessions)),
    {
        let cur = match self.get(date) {
            Some(d) => d,
            None => DayStats { work_secs: 0, helping_secs: 0, sessions: 0 },
        };
        let next = DayStats {
            work_secs: cur.work_secs + work_secs,
            helping_secs: cur.helping_secs + helping_secs,
            sessions: cur.sessions + sessions,
        };
        self.set(date, next);
    }

    /// A copy of this map.
    pub fn duplicate(&self) -> (r: DailyStats)
        ensures
            r@ == self@,
    {
        proof {
            use_type_invariant(self);
        }
        let mut v: Vec<DayRecord> = Vec::new();
        let mut i: usize = 0;
        assert(v@.map_values(|r: DayRecord| (r.date@, r.stats)) =~= self@.take(0));
        while i < self.entries.len()
            invariant
                i <= self.entries@.len(),
                self@.len() == self.entries@.len(),
                v@.len() == i,
                v@.map_values(|r: DayRecord| (r.date@, r.stats)) == self@.take(i as int),
            decreases self.entries@.len() - i,
        {
            let e = &self.entries[i];
            let rec = DayRecord { date: e.date.clone(), stats: e.stats };
            assert((rec.date@, rec.stats) == self@[i as int]);
            let ghost before = v@;
            v.push(rec);
            assert forall|j: int| 0 <= j < i + 1 implies v@.map_values(|r: DayRecord| (r.date@, r.stats))[j]
                == #[trigger] self@.take(i + 1)[j] by {
                if j < i {
                    assert(v@[j] == before[j]);
                    assert(before.map_values(|r: DayRecord| (r.date@, r.stats))[j] == self@.take(i as int)[j]);
                }
            }
            assert(v@.map_values(|r: DayRecord| (r.date@, r.stats)) =~= self@.take(i + 1));
            i = i + 1;
        }
        assert(self@.take(i as int) =~= self@);
        DailyStats { entries: v }
    }

    /// The totals of the `i`-th day in ascending order.
    pub fn stats_at(&self, i: usize) -> (r: DayStats)
        requires
            i < self@.len(),
        ensures
            r == self@[i as int].1,
    {
        self.entries[i].stats
    }
}

} // verus!
