use vstd::prelude::*;

verus! {

/// One policy rule: its type and up to six values. Identity is the whole
/// tuple; a rule carries no id of its own.
#[derive(Debug, PartialEq, Eq)]
pub struct CasbinRule {
    pub ptype: String,
    pub v0: String,
    pub v1: String,
    pub v2: String,
    pub v3: String,
    pub v4: String,
    pub v5: String,
}

impl Clone for CasbinRule {
    fn clone(&self) -> (r: Self)
        ensures
            r == *self,
    {
        CasbinRule {
            ptype: self.ptype.clone(),
            v0: self.v0.clone(),
            v1: self.v1.clone(),
            v2: self.v2.clone(),
            v3: self.v3.clone(),
            v4: self.v4.clone(),
            v5: self.v5.clone(),
        }
    }
}

/// The six values of a rule, in column order.
pub open spec fn rule_values(r: CasbinRule) -> Seq<Seq<char>> {
    seq![r.v0@, r.v1@, r.v2@, r.v3@, r.v4@, r.v5@]
}

/// The `i`-th value of a padded rule: the given value, or empty past its end.
pub open spec fn padded_value(rule: Seq<String>, i: int) -> Seq<char> {
    if i < rule.len() {
        rule[i]@
    } else {
        Seq::empty()
    }
}

/// How many leading values are kept once trailing empty values are dropped.
pub open spec fn kept_len(vals: Seq<Seq<char>>) -> nat
    decreases vals.len(),
{
    if vals.len() == 0 {
        0
    } else if vals.last().len() == 0 {
        kept_len(vals.drop_last())
    } else {
        vals.len()
    }
}

/// `r` is the rule of type `ptype` built from the values `rule`: the
/// values in order, padded with empty ones (or cut) to six.
pub open spec fn built_from(r: CasbinRule, ptype: Seq<char>, rule: Seq<String>) -> bool {
    &&& r.ptype@ == ptype
    &&& r.v0@ == padded_value(rule, 0)
    &&& r.v1@ == padded_value(rule, 1)
    &&& r.v2@ == padded_value(rule, 2)
    &&& r.v3@ == padded_value(rule, 3)
    &&& r.v4@ == padded_value(rule, 4)
    &&& r.v5@ == padded_value(rule, 5)
}

/// `p` is the policy value list of `rule`: its leading values, up to the
/// last that is not empty.
pub open spec fn policy_of(rule: CasbinRule, p: Seq<String>) -> bool {
    &&& p.len() == kept_len(rule_values(rule))
    &&& forall|i: int| 0 <= i < p.len() ==> (#[trigger] p[i])@ == rule_values(rule)[i]
}

/// A policy list never ends in an empty value, and every value of the rule
/// past its end is empty: only trailing padding is dropped.
pub proof fn lemma_policy_drops_only_trailing_empty(rule: CasbinRule, p: Seq<String>)
    requires
        policy_of(rule, p),
    ensures
        p.len() <= 6,
        p.len() > 0 ==> p[p.len() - 1]@.len() > 0,
        forall|i: int| p.len() <= i < 6 ==> (#[trigger] rule_values(rule)[i]).len() == 0,
{
    lemma_kept_len(rule_values(rule));
}

/// Storing a policy and reading it back gives the same policy: for a list of
/// at most six values whose last value is not empty, the rule built from it
/// turns back into exactly that list.
pub proof fn lemma_policy_round_trip(ptype: Seq<char>, values: Seq<String>, rule: CasbinRule, p: Seq<String>)
    requires
        values.len() <= 6,
        values.len() > 0 ==> values[values.len() - 1]@.len() > 0,
        built_from(rule, ptype, values),
        policy_of(rule, p),
    ensures
        p.len() == values.len(),
        forall|i: int| 0 <= i < p.len() ==> (#[trigger] p[i])@ == values[i]@,
{
    let vs = rule_values(rule);
    assert forall|i: int| 0 <= i < 6 implies (#[trigger] vs[i]) == padded_value(values, i) by {
    }
    lemma_kept_len(vs);
    lemma_policy_drops_only_trailing_empty(rule, p);
    if values.len() > 0 {
        assert(vs[values.len() - 1] == values[values.len() - 1]@);
    }
    if p.len() > values.len() {
        assert(vs[p.len() - 1] == padded_value(values, p.len() - 1));
    }
    if p.len() < values.len() {
        assert(vs[values.len() - 1].len() > 0);
    }
}

/// What `kept_len` keeps: at most all the values, a non-empty last one, and
/// nothing but empty values after it.
pub proof fn lemma_kept_len(vals: Seq<Seq<char>>)
    ensures
        kept_len(vals) <= vals.len(),
        kept_len(vals) > 0 ==> vals[kept_len(vals) - 1].len() > 0,
        forall|i: int| kept_len(vals) <= i < vals.len() ==> (#[trigger] vals[i]).len() == 0,
    decreases vals.len(),
{
    if vals.len() > 0 {
        lemma_kept_len(vals.drop_last());
        if vals.last().len() == 0 {
            assert forall|i: int| kept_len(vals) <= i < vals.len() implies (#[trigger] vals[i]).len() == 0 by {
                if i < vals.len() - 1 {
                    assert(vals.drop_last()[i] == vals[i]);
                }
            }
            if kept_len(vals) > 0 {
                assert(vals.drop_last()[kept_len(vals) - 1] == vals[kept_len(vals) - 1]);
            }
        }
    }
}

fn empty_string() -> (s: String)
    ensures
        s@ == Seq::<char>::empty(),
{
    String::new()
}

impl CasbinRule {
    /// Build a rule from a policy type and its values, padding or cutting the
    /// values to exactly six.
    pub fn from_parts(ptype: &str, rule: &[String]) -> (r: CasbinRule)
        ensures
            built_from(r, ptype@, rule@),
    {
        let v0 = if rule.len() > 0 { rule[0].clone() } else { empty_string() };
        let v1 = if rule.len() > 1 { rule[1].clone() } else { empty_string() };
        let v2 = if rule.len() > 2 { rule[2].clone() } else { empty_string() };
        let v3 = if rule.len() > 3 { rule[3].clone() } else { empty_string() };
        let v4 = if rule.len() > 4 { rule[4].clone() } else { empty_string() };
        let v5 = if rule.len() > 5 { rule[5].clone() } else { empty_string() };
        CasbinRule { ptype: ptype.to_owned(), v0, v1, v2, v3, v4, v5 }
    }

    /// The six values, in column order.
    pub fn values(&self) -> (r: [&str; 6])
        ensures
            r@.len() == 6,
            forall|i: int| 0 <= i < 6 ==> (#[trigger] r@[i])@ == rule_values(*self)[i],
    {
        [self.v0.as_str(), self.v1.as_str(), self.v2.as_str(), self.v3.as_str(), self.v4.as_str(), self.v5.as_str()]
    }

    /// Back to a policy's value list: the six values with trailing empty ones
    /// dropped.
    pub fn to_policy(&self) -> (r: Vec<String>)
        ensures
            policy_of(*self, r@),
    {
        let vals = self.values();
        let ghost vs = rule_values(*self);
        let mut n: usize = 6;
        assert(vs.len() == 6);
        assert(vs.subrange(0, 6) =~= vs);
        while n > 0 && vals[n - 1].unicode_len() == 0
            invariant
                n <= 6,
                vs.len() == 6,
                vals@.len() == 6,
                forall|i: int| 0 <= i < 6 ==> (#[trigger] vals@[i])@ == vs[i],
                kept_len(vs) == kept_len(vs.subrange(0, n as int)),
            decreases n,
        {
            proof {
                assert(vs.subrange(0, n as int).drop_last() =~= vs.subrange(0, n as int - 1));
            }
            n = n - 1;
        }
        proof {
            if n > 0 {
                assert(vs.subrange(0, n as int).last() == vs[n as int - 1]);
            }
        }
        let mut r: Vec<String> = Vec::new();
        let mut i: usize = 0;
        while i < n
            invariant
                i <= n <= 6,
                vs.len() == 6,
                vals@.len() == 6,
                forall|k: int| 0 <= k < 6 ==> (#[trigger] vals@[k])@ == vs[k],
                r@.len() == i,
                forall|k: int| 0 <= k < i ==> (#[trigger] r@[k])@ == vs[k],
            decreases n - i,
        {
            r.push(vals[i].to_owned());
            i = i + 1;
        }
        proof {
            assert(vs.subrange(0, 6) =~= vs);
        }
        r
    }
}

} // verus!
