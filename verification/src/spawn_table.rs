use vstd::prelude::*;
use crate::components::MAX_STAT;
use crate::rng::roll_dice;

verus! {

/// One spawnable thing and its relative weight.
pub struct Entry {
    pub name: String,
    pub weight: i32,
}

impl Entry {
    pub fn new(name: String, weight: i32) -> (r: Entry)
        ensures
            r.name@ == name@,
            r.weight == weight,
    {
        Entry { name, weight }
    }
}

/// The total weight of a list of entries.
pub open spec fn sum_weights(s: Seq<Entry>) -> int
    decreases s.len(),
{
    if s.len() == 0 {
        0
    } else {
        s[0].weight + sum_weights(s.skip(1))
    }
}

/// What a weighted draw picks: the first entry whose running cumulative
/// weight reaches the draw, so an entry of weight w among total t is chosen
/// by w of the t draws. A draw of zero (only possible on an empty table)
/// picks nothing.
pub open spec fn spec_roll(s: Seq<Entry>, draw: int) -> Seq<char>
    decreases s.len(),
{
    if draw <= 0 || s.len() == 0 {
        "None"@
    } else if draw <= s[0].weight {
        s[0].name@
    } else {
        spec_roll(s.skip(1), draw - s[0].weight)
    }
}

/// A weighted table of things to spawn.
pub struct SpawnTable {
    pub entries: Vec<Entry>,
    pub total_weight: i32,
}

impl SpawnTable {
    /// The running total matches the entries and every weight is modest and
    /// non-negative.
    pub open spec fn wf(self) -> bool {
        &&& self.total_weight == sum_weights(self.entries@)
        &&& forall|i: int| 0 <= i < self.entries@.len() ==> 0 <= (#[trigger] self.entries@[i]).weight
        &&& 0 <= self.total_weight <= MAX_STAT
    }

    pub fn new() -> (r: SpawnTable)
        ensures
            r.wf(),
            r.entries@.len() == 0,
            r.total_weight == 0,
    {
        SpawnTable { entries: Vec::new(), total_weight: 0 }
    }

    /// Adds one weighted entry, keeping the running total.
    pub fn add(self, name: String, weight: i32) -> (r: SpawnTable)
        requires
            self.wf(),
            0 <= weight,
            self.total_weight + weight <= MAX_STAT,
        ensures
            r.wf(),
            r.entries@.len() == self.entries@.len() + 1,
            r.entries@[r.entries@.len() - 1].name@ == name@,
            r.entries@[r.entries@.len() - 1].weight == weight,
            forall|i: int|
                0 <= i < self.entries@.len() ==> r.entries@[i] == #[trigger] self.entries@[i],
            r.total_weight == self.total_weight + weight,
    {
        let mut s = self;
        let ghost pre = s.entries@;
        s.total_weight = s.total_weight + weight;
        s.entries.push(Entry::new(name, weight));
        proof {
            lemma_sum_weights_push(pre, s.entries@[s.entries@.len() - 1]);
        }
        s
    }

    /// Resolves one draw against the table: the exact entry the cumulative
    /// walk lands on ("None" only comes out of an empty table).
    pub fn roll_with(&self, k: i32) -> (r: String)
        requires
            self.wf(),
            0 <= k <= self.total_weight,
        ensures
            r@ == spec_roll(self.entries@, k as int),
    {
        if k <= 0 {
            proof {
                reveal_strlit("None");
            }
            return String::from_str("None");
        }
        let len = self.entries.len();
        let mut d = k;
        let mut idx: usize = 0;
        proof {
            assert(self.entries@.skip(0) =~= self.entries@);
            lemma_sum_nonneg(self.entries@);
        }
        loop
            invariant
                self.wf(),
                len == self.entries@.len(),
                idx < len,
                1 <= d <= sum_weights(self.entries@.skip(idx as int)),
                spec_roll(self.entries@, k as int) == spec_roll(
                    self.entries@.skip(idx as int),
                    d as int,
                ),
            ensures
                idx < len,
                d <= self.entries@[idx as int].weight,
                1 <= d,
                spec_roll(self.entries@, k as int) == spec_roll(
                    self.entries@.skip(idx as int),
                    d as int,
                ),
            decreases len - idx,
        {
            proof {
                assert(self.entries@.skip(idx as int)[0] == self.entries@[idx as int]);
                assert(self.entries@.skip(idx as int).skip(1) =~= self.entries@.skip(
                    idx as int + 1,
                ));
                lemma_sum_nonneg(self.entries@.skip(idx as int + 1));
            }
            if d <= self.entries[idx].weight {
                break ;
            }
            d = d - self.entries[idx].weight;
            idx = idx + 1;
            proof {
                if idx == len {
                    assert(self.entries@.skip(idx as int) =~= Seq::<Entry>::empty());
                    assert(sum_weights(self.entries@.skip(idx as int)) == 0);
                    assert(false);
                }
            }
        }
        proof {
            assert(self.entries@.skip(idx as int)[0] == self.entries@[idx as int]);
            assert(spec_roll(self.entries@.skip(idx as int), d as int) == self.entries@[
                idx as int
            ].name@);
        }
        self.entries[idx].name.clone()
    }

    /// Rolls against the table with the dice roller: some outcome of the
    /// cumulative walk comes back; an empty table always yields "None".
    pub fn roll(&self, rng: &mut rltk::RandomNumberGenerator) -> (r: String)
        requires
            self.wf(),
        ensures
            self.total_weight == 0 ==> r@ == "None"@ && *final(rng) == *old(rng),
            self.total_weight > 0 ==> exists|k: int|
                1 <= k <= self.total_weight && r@ == #[trigger] spec_roll(self.entries@, k),
    {
        if self.total_weight == 0 {
            return String::from_str("None");
        }
        let k = roll_dice(rng, 1, self.total_weight);
        let r = self.roll_with(k);
        proof {
            assert(1 <= k <= self.total_weight && r@ == spec_roll(self.entries@, k as int));
        }
        r
    }
}

proof fn lemma_sum_nonneg(s: Seq<Entry>)
    requires
        forall|i: int| 0 <= i < s.len() ==> 0 <= (#[trigger] s[i]).weight,
    ensures
        sum_weights(s) >= 0,
    decreases s.len(),
{
    if s.len() > 0 {
        assert(forall|i: int| 0 <= i < s.skip(1).len() ==> 0 <= (#[trigger] s.skip(1)[i]).weight);
        lemma_sum_nonneg(s.skip(1));
    }
}

proof fn lemma_sum_weights_push(s: Seq<Entry>, e: Entry)
    ensures
        sum_weights(s.push(e)) == sum_weights(s) + e.weight,
    decreases s.len(),
{
    if s.len() == 0 {
        assert(s.push(e)[0] == e);
        assert(s.push(e).skip(1) =~= Seq::<Entry>::empty());
        assert(sum_weights(s.push(e).skip(1)) == 0);
    } else {
        assert(s.push(e).skip(1) =~= s.skip(1).push(e));
        lemma_sum_weights_push(s.skip(1), e);
    }
}

} // verus!
