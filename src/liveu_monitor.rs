//! Change detection over successive telemetry samples: which interfaces came
//! and went, and which battery transitions deserve an alert.
use crate::liveu::{Battery, Interface};
use crate::text::{comma_joined, decimal, decimal_string, join_comma, texts};
use vstd::prelude::*;

verus! {

/// The candidates that are not known yet, first occurrence first, each once.
pub open spec fn fresh_names(known: Seq<Seq<char>>, cands: Seq<Seq<char>>) -> Seq<Seq<char>>
    decreases cands.len(),
{
    if cands.len() == 0 {
        seq![]
    } else {
        let before = fresh_names(known, cands.drop_last());
        let x = cands.last();
        if known.contains(x) || before.contains(x) {
            before
        } else {
            before.push(x)
        }
    }
}

/// The known names that are (`present`) or are not (`!present`) among the
/// candidates, in known order.
pub open spec fn partition(known: Seq<Seq<char>>, cands: Seq<Seq<char>>, present: bool) -> Seq<Seq<char>>
    decreases known.len(),
{
    if known.len() == 0 {
        seq![]
    } else {
        let before = partition(known.drop_last(), cands, present);
        if cands.contains(known.last()) == present {
            before.push(known.last())
        } else {
            before
        }
    }
}

/// The known names after a sample: those still present, then the new ones.
pub open spec fn next_known(known: Seq<Seq<char>>, cands: Seq<Seq<char>>) -> Seq<Seq<char>> {
    partition(known, cands, true) + fresh_names(known, cands)
}

/// The sentence on new and on departed interfaces, empty when neither.
pub open spec fn modems_text(new: Seq<Seq<char>>, removed: Seq<Seq<char>>) -> Seq<char> {
    let arrived = if new.len() == 0 {
        seq![]
    } else {
        comma_joined(new) + (if new.len() > 1 {
            " are"@
        } else {
            " is"@
        }) + " now connected."@
    };
    let departed = if removed.len() == 0 {
        seq![]
    } else {
        comma_joined(removed) + (if removed.len() > 1 {
            " have"@
        } else {
            " has"@
        }) + " disconnected."@
    };
    arrived + departed
}

/// The sentence that a sample of candidates causes against the known names.
pub open spec fn change_text(known: Seq<Seq<char>>, cands: Seq<Seq<char>>) -> Seq<char> {
    modems_text(fresh_names(known, cands), partition(known, cands, false))
}

/// The prefix of every alert that the monitors post.
pub open spec fn alert_prefix() -> Seq<char> {
    "LiveU: "@
}

fn contains_text(v: &Vec<String>, s: &String) -> (r: bool)
    ensures
        r == texts(v@).contains(s@),
{
    let mut i: usize = 0;
    while i < v.len()
        invariant
            i <= v.len(),
            forall|j: int| 0 <= j < i ==> v@[j]@ != s@,
        decreases v.len() - i,
    {
        if v[i] == *s {
            assert(texts(v@)[i as int] == s@);
            return true;
        }
        i = i + 1;
    }
    proof {
        if texts(v@).contains(s@) {
            let j = choose|j: int| 0 <= j < texts(v@).len() && texts(v@)[j] == s@;
            assert(v@[j]@ == s@);
        }
    }
    false
}

/// The display names of the interfaces, in order.
pub fn ports(interfaces: &Vec<Interface>) -> (r: Vec<String>)
    ensures
        texts(r@) == interfaces@.map_values(|f: Interface| f.port@),
{
    let mut r: Vec<String> = Vec::new();
    let mut i: usize = 0;
    while i < interfaces.len()
        invariant
            i <= interfaces.len(),
            texts(r@) =~= interfaces@.take(i as int).map_values(|f: Interface| f.port@),
        decreases interfaces.len() - i,
    {
        let port = interfaces[i].port.clone();
        assert(port@ == interfaces@[i as int].port@);
        let ghost before = r@;
        r.push(port);
        proof {
            assert(texts(r@) =~= texts(before).push(port@));
            assert(interfaces@.take(i + 1) =~= interfaces@.take(i as int).push(interfaces@[i as int]));
        }
        i = i + 1;
        proof {
            assert(texts(r@) =~= interfaces@.take(i as int).map_values(|f: Interface| f.port@));
        }
    }
    proof {
        assert(interfaces@.take(i as int) =~= interfaces@);
    }
    r
}

/// Composes the sentence on new and on departed interfaces.
pub fn generate_modems_message(new_modems: &Vec<String>, removed_modems: &Vec<String>) -> (r: String)
    ensures
        r@ == modems_text(texts(new_modems@), texts(removed_modems@)),
{
    let mut message = String::new();
    if new_modems.len() > 0 {
        let verb = if new_modems.len() > 1 {
            " are"
        } else {
            " is"
        };
        message = join_comma(new_modems).concat(verb).concat(" now connected.");
    }
    if removed_modems.len() > 0 {
        let verb = if removed_modems.len() > 1 {
            " have"
        } else {
            " has"
        };
        message = message.concat(join_comma(removed_modems).concat(verb).concat(" disconnected.").as_str());
    }
    proof {
        reveal_strlit(" are");
        reveal_strlit(" is");
        reveal_strlit(" have");
        reveal_strlit(" has");
        assert(seq![] + modems_text(texts(new_modems@), texts(removed_modems@)) == modems_text(texts(new_modems@), texts(removed_modems@)));
    }
    message
}

/// The interface monitor: which display names are known, whether a first
/// sample was taken, and whether the next streaming tick is to stay silent.
pub struct ModemWatch {
    known: Vec<String>,
    seeded: bool,
    ignore: bool,
}

impl ModemWatch {
    /// The display names known to the monitor.
    pub closed spec fn known(&self) -> Seq<Seq<char>> {
        texts(self.known@)
    }

    /// Whether a first sample was taken.
    pub closed spec fn seeded(&self) -> bool {
        self.seeded
    }

    /// Whether the next streaming tick stays silent.
    pub closed spec fn ignoring(&self) -> bool {
        self.ignore
    }

    /// A monitor that knows no interface yet.
    pub fn new() -> (r: ModemWatch)
        ensures
            r.known() == Seq::<Seq<char>>::empty(),
            !r.seeded(),
            !r.ignoring(),
    {
        let r = ModemWatch { known: Vec::new(), seeded: false, ignore: false };
        assert(r.known() =~= Seq::<Seq<char>>::empty());
        r
    }

    /// Diffs a sample of display names against the known ones: returns the
    /// new names and the departed ones, and keeps the known set in step.
    pub fn diff(&mut self, candidates: &Vec<String>) -> (r: (Vec<String>, Vec<String>))
        ensures
            texts(r.0@) == fresh_names(old(self).known(), texts(candidates@)),
            texts(r.1@) == partition(old(self).known(), texts(candidates@), false),
            final(self).known() == next_known(old(self).known(), texts(candidates@)),
            final(self).seeded() == old(self).seeded(),
            final(self).ignoring() == old(self).ignoring(),
    {
        let ghost t = texts(self.known@);
        let ghost c = texts(candidates@);
        let mut new_modems: Vec<String> = Vec::new();
        let mut i: usize = 0;
        while i < candidates.len()
            invariant
                i <= candidates.len(),
                t == texts(self.known@),
                c == texts(candidates@),
                texts(new_modems@) == fresh_names(t, c.take(i as int)),
            decreases candidates.len() - i,
        {
            proof {
                assert(c.take(i + 1).drop_last() =~= c.take(i as int));
                assert(c.take(i + 1).last() == candidates@[i as int]@);
            }
            if !contains_text(&self.known, &candidates[i]) && !contains_text(&new_modems, &candidates[i]) {
                let ghost before = new_modems@;
                new_modems.push(candidates[i].clone());
                assert(texts(new_modems@) =~= texts(before).push(candidates@[i as int]@));
            }
            i = i + 1;
        }
        assert(c.take(i as int) =~= c);
        let mut kept: Vec<String> = Vec::new();
        let mut removed_modems: Vec<String> = Vec::new();
        let mut j: usize = 0;
        while j < self.known.len()
            invariant
                j <= self.known.len(),
                t == texts(self.known@),
                c == texts(candidates@),
                texts(kept@) == partition(t.take(j as int), c, true),
                texts(removed_modems@) == partition(t.take(j as int), c, false),
            decreases self.known.len() - j,
        {
            proof {
                assert(t.take(j + 1).drop_last() =~= t.take(j as int));
                assert(t.take(j + 1).last() == self.known@[j as int]@);
            }
            let ghost k0 = kept@;
            let ghost r0 = removed_modems@;
            if contains_text(candidates, &self.known[j]) {
                kept.push(self.known[j].clone());
                assert(texts(kept@) =~= texts(k0).push(self.known@[j as int]@));
            } else {
                removed_modems.push(self.known[j].clone());
                assert(texts(removed_modems@) =~= texts(r0).push(self.known@[j as int]@));
            }
            j = j + 1;
        }
        assert(t.take(j as int) =~= t);
        let ghost k1 = kept@;
        let mut added = new_modems.clone();
        kept.append(&mut added);
        assert(texts(kept@) =~= texts(k1) + texts(new_modems@));
        self.known = kept;
        (new_modems, removed_modems)
    }

    /// Takes the first sample: its names become the known set, silently.
    pub fn seed(&mut self, names: &Vec<String>)
        ensures
            final(self).known() == fresh_names(Seq::empty(), texts(names@)),
            final(self).seeded(),
            final(self).ignoring() == old(self).ignoring(),
    {
        self.known = Vec::new();
        assert(texts(self.known@) =~= Seq::<Seq<char>>::empty());
        let _ = self.diff(names);
        proof {
            lemma_partition_of_empty(texts(names@), true);
            assert(Seq::<Seq<char>>::empty() + fresh_names(Seq::empty(), texts(names@)) =~= fresh_names(Seq::empty(), texts(names@)));
        }
        self.seeded = true;
    }

    /// One tick of the interface monitor. While the unit does not stream the
    /// monitor only remembers to stay silent on the next streaming tick; a
    /// failed sample (`None`) skips the tick; the first sample seeds the known
    /// set. Otherwise the sample is diffed, and the alert to post, if any, is
    /// returned.
    pub fn tick(&mut self, streaming: bool, sample: Option<Vec<String>>) -> (r: Option<String>)
        ensures
            !streaming ==> r is None && final(self).ignoring() && final(self).known() == old(self).known()
                && final(self).seeded() == old(self).seeded(),
            streaming && sample is None ==> r is None && final(self).known() == old(self).known()
                && final(self).seeded() == old(self).seeded() && final(self).ignoring() == old(self).ignoring(),
            streaming && sample is Some && !old(self).seeded() ==> r is None && final(self).seeded()
                && !final(self).ignoring() && final(self).known() == fresh_names(Seq::empty(), texts(sample->Some_0@)),
            streaming && sample is Some && old(self).seeded() ==> {
                let c = texts(sample->Some_0@);
                let msg = change_text(old(self).known(), c);
                &&& final(self).seeded()
                &&& !final(self).ignoring()
                &&& final(self).known() == next_known(old(self).known(), c)
                &&& (r is Some) == (!old(self).ignoring() && msg.len() > 0)
                &&& r is Some ==> r->Some_0@ == alert_prefix() + msg
            },
    {
        if !streaming {
            self.ignore = true;
            return None;
        }
        match sample {
            None => None,
            Some(names) => {
                if !self.seeded {
                    self.seed(&names);
                    self.ignore = false;
                    None
                } else {
                    let (new_modems, removed_modems) = self.diff(&names);
                    let message = generate_modems_message(&new_modems, &removed_modems);
                    let silent = self.ignore;
                    self.ignore = false;
                    if !silent && !message.as_str().is_empty() {
                        proof {
                            reveal_strlit("LiveU: ");
                        }
                        Some(String::from_str("LiveU: ").concat(message.as_str()))
                    } else {
                        None
                    }
                }
            },
        }
    }
}

proof fn lemma_fresh_members(known: Seq<Seq<char>>, cands: Seq<Seq<char>>)
    ensures
        forall|x: Seq<char>| #[trigger] fresh_names(known, cands).contains(x) ==> cands.contains(x) && !known.contains(x),
    decreases cands.len(),
{
    if cands.len() > 0 {
        let rest = cands.drop_last();
        lemma_fresh_members(known, rest);
        let before = fresh_names(known, rest);
        assert forall|x: Seq<char>| #[trigger] fresh_names(known, cands).contains(x) implies cands.contains(x)
            && !known.contains(x) by {
            if before.contains(x) {
                let j = choose|j: int| 0 <= j < rest.len() && rest[j] == x;
                assert(cands[j] == x);
            } else {
                let f = fresh_names(known, cands);
                let j = choose|j: int| 0 <= j < f.len() && f[j] == x;
                assert(f == before.push(cands.last()));
                assert(j == before.len());
                assert(cands[cands.len() - 1] == x);
            }
        }
    }
}

proof fn lemma_fresh_covers(known: Seq<Seq<char>>, cands: Seq<Seq<char>>)
    ensures
        forall|x: Seq<char>| #[trigger] cands.contains(x) ==> known.contains(x) || fresh_names(known, cands).contains(x),
    decreases cands.len(),
{
    if cands.len() > 0 {
        let rest = cands.drop_last();
        lemma_fresh_covers(known, rest);
        let before = fresh_names(known, rest);
        let f = fresh_names(known, cands);
        assert forall|x: Seq<char>| #[trigger] cands.contains(x) implies known.contains(x) || f.contains(x) by {
            let j = choose|j: int| 0 <= j < cands.len() && cands[j] == x;
            if j < cands.len() - 1 {
                assert(rest[j] == x);
                assert(rest.contains(x));
                if before.contains(x) {
                    let k = choose|k: int| 0 <= k < before.len() && before[k] == x;
                    if f != before {
                        assert(f == before.push(cands.last()));
                        assert(f[k] == x);
                    }
                }
            } else if !known.contains(x) && !before.contains(x) {
                assert(f == before.push(x));
                assert(f[before.len() as int] == x);
            } else if before.contains(x) {
                let k = choose|k: int| 0 <= k < before.len() && before[k] == x;
                assert(f == before);
            }
        }
    }
}

proof fn lemma_fresh_none(known: Seq<Seq<char>>, cands: Seq<Seq<char>>)
    requires
        forall|x: Seq<char>| #[trigger] cands.contains(x) ==> known.contains(x),
    ensures
        fresh_names(known, cands) == Seq::<Seq<char>>::empty(),
    decreases cands.len(),
{
    if cands.len() > 0 {
        let rest = cands.drop_last();
        assert forall|x: Seq<char>| #[trigger] rest.contains(x) implies known.contains(x) by {
            let j = choose|j: int| 0 <= j < rest.len() && rest[j] == x;
            assert(cands[j] == x);
            assert(cands.contains(x));
        }
        lemma_fresh_none(known, rest);
        assert(cands[cands.len() - 1] == cands.last());
        assert(cands.contains(cands.last()));
    }
}

proof fn lemma_partition_members(known: Seq<Seq<char>>, cands: Seq<Seq<char>>, present: bool)
    ensures
        forall|x: Seq<char>| #[trigger] partition(known, cands, present).contains(x) ==> known.contains(x)
            && cands.contains(x) == present,
        forall|x: Seq<char>| #[trigger] known.contains(x) && cands.contains(x) == present ==> partition(
            known,
            cands,
            present,
        ).contains(x),
    decreases known.len(),
{
    if known.len() > 0 {
        let rest = known.drop_last();
        lemma_partition_members(rest, cands, present);
        let before = partition(rest, cands, present);
        let p = partition(known, cands, present);
        assert forall|x: Seq<char>| #[trigger] p.contains(x) implies known.contains(x) && cands.contains(x)
            == present by {
            let j = choose|j: int| 0 <= j < p.len() && p[j] == x;
            if j < before.len() {
                assert(before[j] == x);
                assert(before.contains(x));
                let k = choose|k: int| 0 <= k < rest.len() && rest[k] == x;
                assert(known[k] == x);
            } else {
                assert(x == known.last());
                assert(known[known.len() - 1] == x);
            }
        }
        assert forall|x: Seq<char>| #[trigger] known.contains(x) && cands.contains(x) == present implies p.contains(
            x,
        ) by {
            let j = choose|j: int| 0 <= j < known.len() && known[j] == x;
            if j < known.len() - 1 {
                assert(rest[j] == x);
                assert(rest.contains(x));
                let k = choose|k: int| 0 <= k < before.len() && before[k] == x;
                assert(p[k] == x);
            } else {
                assert(p == before.push(x));
                assert(p[before.len() as int] == x);
            }
        }
    }
}

proof fn lemma_partition_none(known: Seq<Seq<char>>, cands: Seq<Seq<char>>, present: bool)
    requires
        forall|x: Seq<char>| #[trigger] known.contains(x) ==> cands.contains(x) != present,
    ensures
        partition(known, cands, present) == Seq::<Seq<char>>::empty(),
    decreases known.len(),
{
    if known.len() > 0 {
        let rest = known.drop_last();
        assert forall|x: Seq<char>| #[trigger] rest.contains(x) implies cands.contains(x) != present by {
            let j = choose|j: int| 0 <= j < rest.len() && rest[j] == x;
            assert(known[j] == x);
            assert(known.contains(x));
        }
        lemma_partition_none(rest, cands, present);
        assert(known[known.len() - 1] == known.last());
        assert(known.contains(known.last()));
    }
}

/// A sample never reports one display name both as new and as departed.
pub proof fn lemma_new_and_removed_disjoint(known: Seq<Seq<char>>, cands: Seq<Seq<char>>)
    ensures
        forall|x: Seq<char>| !(#[trigger] fresh_names(known, cands).contains(x) && partition(known, cands, false).contains(x)),
{
    lemma_fresh_members(known, cands);
    lemma_partition_members(known, cands, false);
}

/// The same sample twice in a row: the second finds nothing new and nothing
/// departed, leaves the known names as they are, and yields no message.
pub proof fn lemma_same_sample_twice(known: Seq<Seq<char>>, cands: Seq<Seq<char>>)
    ensures
        fresh_names(next_known(known, cands), cands) == Seq::<Seq<char>>::empty(),
        partition(next_known(known, cands), cands, false) == Seq::<Seq<char>>::empty(),
        next_known(next_known(known, cands), cands) == next_known(known, cands),
        change_text(next_known(known, cands), cands) == Seq::<char>::empty(),
{
    let after = next_known(known, cands);
    let kept = partition(known, cands, true);
    let new = fresh_names(known, cands);
    lemma_fresh_covers(known, cands);
    lemma_fresh_members(known, cands);
    lemma_partition_members(known, cands, true);
    assert forall|x: Seq<char>| #[trigger] cands.contains(x) implies after.contains(x) by {
        if known.contains(x) {
            let k = choose|k: int| 0 <= k < kept.len() && kept[k] == x;
            assert(after[k] == x);
        } else {
            let k = choose|k: int| 0 <= k < new.len() && new[k] == x;
            assert(after[kept.len() + k] == x);
        }
    }
    assert forall|x: Seq<char>| #[trigger] after.contains(x) implies cands.contains(x) != false by {
        let k = choose|k: int| 0 <= k < after.len() && after[k] == x;
        if k < kept.len() {
            assert(kept[k] == x);
            assert(kept.contains(x));
        } else {
            assert(new[k - kept.len()] == x);
            assert(new.contains(x));
        }
    }
    lemma_fresh_none(after, cands);
    lemma_partition_none(after, cands, false);
    lemma_partition_all(after, cands);
    assert(after + Seq::<Seq<char>>::empty() =~= after);
    assert(modems_text(Seq::empty(), Seq::empty()) =~= Seq::<char>::empty());
}

proof fn lemma_partition_all(known: Seq<Seq<char>>, cands: Seq<Seq<char>>)
    requires
        forall|x: Seq<char>| #[trigger] known.contains(x) ==> cands.contains(x),
    ensures
        partition(known, cands, true) == known,
    decreases known.len(),
{
    if known.len() > 0 {
        let rest = known.drop_last();
        assert forall|x: Seq<char>| #[trigger] rest.contains(x) implies cands.contains(x) by {
            let j = choose|j: int| 0 <= j < rest.len() && rest[j] == x;
            assert(known[j] == x);
            assert(known.contains(x));
        }
        lemma_partition_all(rest, cands);
        assert(known[known.len() - 1] == known.last());
        assert(known.contains(known.last()));
        assert(rest.push(known.last()) =~= known);
    }
}

/// An alert on a battery transition.
#[derive(Debug, Clone, Copy, PartialEq, Eq, Structural)]
pub enum BatteryAlert {
    /// The unit went from external power to its battery.
    CableDisconnected,
    /// The unit started charging.
    NowCharging,
    /// Charging stopped below full: the battery is too hot to charge.
    TooHotToCharge,
    /// Charging stopped at full.
    FullyCharged,
    /// The level reached a configured threshold; the flag tells whether the
    /// unit is charging.
    Level(u8, bool),
}

/// The power supply was pulled.
pub open spec fn cable_disconnected(prev: Battery, cur: Battery) -> bool {
    !cur.charging && cur.discharging && !prev.discharging
}

/// Charging began.
pub open spec fn started_charging(prev: Battery, cur: Battery) -> bool {
    cur.charging && !cur.discharging && !prev.charging
}

/// Charging or discharging stopped below full.
pub open spec fn too_hot_to_charge(prev: Battery, cur: Battery) -> bool {
    cur.percentage < 100 && !cur.charging && !cur.discharging && (prev.charging || prev.discharging)
}

/// Charging stopped at full.
pub open spec fn fully_charged(prev: Battery, cur: Battery) -> bool {
    cur.percentage == 100 && !cur.charging && !cur.discharging && prev.charging && !prev.discharging
}

/// The level came down to exactly the threshold.
pub open spec fn crossed(prev: Battery, cur: Battery, threshold: u8) -> bool {
    cur.percentage == threshold && prev.percentage > threshold
}

/// The alert if `cond` holds, else nothing.
pub open spec fn alert_if(cond: bool, a: BatteryAlert) -> Seq<BatteryAlert> {
    if cond {
        seq![a]
    } else {
        seq![]
    }
}

/// The alerts of the four state rules, in their fixed order.
pub open spec fn rule_alerts(prev: Battery, cur: Battery) -> Seq<BatteryAlert> {
    alert_if(cable_disconnected(prev, cur), BatteryAlert::CableDisconnected) + alert_if(
        started_charging(prev, cur),
        BatteryAlert::NowCharging,
    ) + alert_if(too_hot_to_charge(prev, cur), BatteryAlert::TooHotToCharge) + alert_if(
        fully_charged(prev, cur),
        BatteryAlert::FullyCharged,
    )
}

/// The threshold alerts, in the order of the configured thresholds.
pub open spec fn level_alerts(prev: Battery, cur: Battery, thresholds: Seq<u8>) -> Seq<BatteryAlert>
    decreases thresholds.len(),
{
    if thresholds.len() == 0 {
        seq![]
    } else {
        level_alerts(prev, cur, thresholds.drop_last()) + alert_if(
            crossed(prev, cur, thresholds.last()),
            BatteryAlert::Level(thresholds.last(), cur.charging),
        )
    }
}

/// All alerts of a transition from `prev` to `cur`.
pub open spec fn transition_alerts(prev: Battery, cur: Battery, thresholds: Seq<u8>) -> Seq<BatteryAlert> {
    rule_alerts(prev, cur) + level_alerts(prev, cur, thresholds)
}

/// How many threshold alerts for `threshold` a list holds.
pub open spec fn level_count(alerts: Seq<BatteryAlert>, threshold: u8) -> nat
    decreases alerts.len(),
{
    if alerts.len() == 0 {
        0
    } else {
        level_count(alerts.drop_last(), threshold) + match alerts.last() {
            BatteryAlert::Level(p, _) => if p == threshold {
                1nat
            } else {
                0nat
            },
            _ => 0nat,
        }
    }
}

/// How many times `t` is listed.
pub open spec fn occurrences(thresholds: Seq<u8>, t: u8) -> nat
    decreases thresholds.len(),
{
    if thresholds.len() == 0 {
        0
    } else {
        occurrences(thresholds.drop_last(), t) + if thresholds.last() == t {
            1nat
        } else {
            0nat
        }
    }
}

/// The threshold alert for one threshold, if the transition reaches it.
pub fn battery_percentage_message(percentage: u8, current: &Battery, prev: &Battery) -> (r: Option<BatteryAlert>)
    ensures
        r == if crossed(*prev, *current, percentage) {
            Some(BatteryAlert::Level(percentage, current.charging))
        } else {
            None::<BatteryAlert>
        },
{
    if current.percentage == percentage && prev.percentage > percentage {
        Some(BatteryAlert::Level(percentage, current.charging))
    } else {
        None
    }
}

/// The alerts of a transition from `prev` to `cur`: the four state rules in
/// their fixed order, then one alert per threshold reached, in list order.
pub fn battery_alerts(prev: &Battery, cur: &Battery, thresholds: &Vec<u8>) -> (r: Vec<BatteryAlert>)
    ensures
        r@ == transition_alerts(*prev, *cur, thresholds@),
{
    let mut r: Vec<BatteryAlert> = Vec::new();
    if !cur.charging && cur.discharging && !prev.discharging {
        r.push(BatteryAlert::CableDisconnected);
    }
    if cur.charging && !cur.discharging && !prev.charging {
        r.push(BatteryAlert::NowCharging);
    }
    if cur.percentage < 100 && !cur.charging && !cur.discharging && (prev.charging || prev.discharging) {
        r.push(BatteryAlert::TooHotToCharge);
    }
    if cur.percentage == 100 && !cur.charging && !cur.discharging && prev.charging && !prev.discharging {
        r.push(BatteryAlert::FullyCharged);
    }
    assert(r@ =~= rule_alerts(*prev, *cur));
    let mut i: usize = 0;
    while i < thresholds.len()
        invariant
            i <= thresholds.len(),
            r@ == rule_alerts(*prev, *cur) + level_alerts(*prev, *cur, thresholds@.take(i as int)),
        decreases thresholds.len() - i,
    {
        proof {
            assert(thresholds@.take(i + 1).drop_last() =~= thresholds@.take(i as int));
            assert(thresholds@.take(i + 1).last() == thresholds@[i as int]);
        }
        let ghost before = r@;
        match battery_percentage_message(thresholds[i], cur, prev) {
            Some(a) => r.push(a),
            None => {},
        }
        i = i + 1;
        assert(r@ =~= rule_alerts(*prev, *cur) + level_alerts(*prev, *cur, thresholds@.take(i as int)));
    }
    assert(thresholds@.take(i as int) =~= thresholds@);
    r
}

impl BatteryAlert {
    /// The chat text of the alert.
    pub fn message(&self) -> (r: String)
        ensures
            r@ == alert_text(*self),
    {
        match self {
            BatteryAlert::CableDisconnected => String::from_str("LiveU: RIP PowerBank / Cable Disconnected"),
            BatteryAlert::NowCharging => String::from_str("LiveU: Now charging"),
            BatteryAlert::TooHotToCharge => String::from_str("LiveU: Too hot to charge"),
            BatteryAlert::FullyCharged => String::from_str("LiveU: Fully charged"),
            BatteryAlert::Level(p, charging) => {
                let state = if *charging {
                    "charging."
                } else {
                    "not charging."
                };
                String::from_str("LiveU: Internal battery is at ").concat(
                    decimal_string(*p as u128).as_str(),
                ).concat("% and is ").concat(state)
            },
        }
    }
}

/// The chat text of each alert.
pub open spec fn alert_text(a: BatteryAlert) -> Seq<char> {
    match a {
        BatteryAlert::CableDisconnected => "LiveU: RIP PowerBank / Cable Disconnected"@,
        BatteryAlert::NowCharging => "LiveU: Now charging"@,
        BatteryAlert::TooHotToCharge => "LiveU: Too hot to charge"@,
        BatteryAlert::FullyCharged => "LiveU: Fully charged"@,
        BatteryAlert::Level(p, charging) => "LiveU: Internal battery is at "@ + decimal(p as nat) + "% and is "@
            + if charging {
            "charging."@
        } else {
            "not charging."@
        },
    }
}

/// The battery monitor: the last real sample, if any.
pub struct BatteryWatch {
    previous: Option<Battery>,
}

impl BatteryWatch {
    /// The last real sample.
    pub closed spec fn previous(&self) -> Option<Battery> {
        self.previous
    }

    /// A monitor that has seen no sample yet.
    pub fn new() -> (r: BatteryWatch)
        ensures
            r.previous() is None,
    {
        BatteryWatch { previous: None }
    }

    /// One tick of the battery monitor. While the unit does not stream, or
    /// when the sample failed (`None`), nothing happens. The first real
    /// sample only becomes the reference; every later one is compared with
    /// the one before and replaces it.
    pub fn tick(&mut self, streaming: bool, sample: Option<Battery>, thresholds: &Vec<u8>) -> (r: Vec<BatteryAlert>)
        ensures
            !streaming || sample is None ==> r@.len() == 0 && final(self).previous() == old(self).previous(),
            streaming && sample is Some ==> final(self).previous() == sample,
            streaming && sample is Some && old(self).previous() is None ==> r@.len() == 0,
            streaming && sample is Some && old(self).previous() is Some ==> r@ == transition_alerts(
                old(self).previous()->Some_0,
                sample->Some_0,
                thresholds@,
            ),
    {
        if !streaming {
            return Vec::new();
        }
        match sample {
            None => Vec::new(),
            Some(cur) => {
                let r = match self.previous {
                    Some(prev) => battery_alerts(&prev, &cur, thresholds),
                    None => Vec::new(),
                };
                self.previous = Some(cur);
                r
            },
        }
    }
}

proof fn lemma_level_count_concat(a: Seq<BatteryAlert>, b: Seq<BatteryAlert>, t: u8)
    ensures
        level_count(a + b, t) == level_count(a, t) + level_count(b, t),
    decreases b.len(),
{
    if b.len() == 0 {
        assert(a + b =~= a);
    } else {
        lemma_level_count_concat(a, b.drop_last(), t);
        assert((a + b).drop_last() =~= a + b.drop_last());
    }
}

proof fn lemma_rule_alerts_have_no_level(prev: Battery, cur: Battery, t: u8)
    ensures
        level_count(rule_alerts(prev, cur), t) == 0,
{
    let a = alert_if(cable_disconnected(prev, cur), BatteryAlert::CableDisconnected);
    let b = alert_if(started_charging(prev, cur), BatteryAlert::NowCharging);
    let c = alert_if(too_hot_to_charge(prev, cur), BatteryAlert::TooHotToCharge);
    let d = alert_if(fully_charged(prev, cur), BatteryAlert::FullyCharged);
    lemma_level_count_concat(a, b, t);
    lemma_level_count_concat(a + b, c, t);
    lemma_level_count_concat(a + b + c, d, t);
    assert(level_count(a, t) == 0) by {
        if a.len() > 0 {
            assert(a.drop_last() =~= Seq::<BatteryAlert>::empty());
        }
    }
    assert(level_count(b, t) == 0) by {
        if b.len() > 0 {
            assert(b.drop_last() =~= Seq::<BatteryAlert>::empty());
        }
    }
    assert(level_count(c, t) == 0) by {
        if c.len() > 0 {
            assert(c.drop_last() =~= Seq::<BatteryAlert>::empty());
        }
    }
    assert(level_count(d, t) == 0) by {
        if d.len() > 0 {
            assert(d.drop_last() =~= Seq::<BatteryAlert>::empty());
        }
    }
}

/// The number of level alerts for `t` equals the number of times `t` is
/// listed, when the transition reaches `t`, and is zero otherwise.
proof fn lemma_level_alerts_count(prev: Battery, cur: Battery, thresholds: Seq<u8>, t: u8)
    ensures
        level_count(level_alerts(prev, cur, thresholds), t) == if crossed(prev, cur, t) {
            occurrences(thresholds, t)
        } else {
            0
        },
    decreases thresholds.len(),
{
    if thresholds.len() > 0 {
        let rest = thresholds.drop_last();
        let x = thresholds.last();
        lemma_level_alerts_count(prev, cur, rest, t);
        let one = alert_if(crossed(prev, cur, x), BatteryAlert::Level(x, cur.charging));
        lemma_level_count_concat(level_alerts(prev, cur, rest), one, t);
        if one.len() > 0 {
            assert(one.drop_last() =~= Seq::<BatteryAlert>::empty());
            assert(level_count(Seq::<BatteryAlert>::empty(), t) == 0);
            assert(level_count(one, t) == if x == t {
                1nat
            } else {
                0nat
            });
        } else {
            assert(level_count(one, t) == 0);
        }
        assert(level_alerts(prev, cur, thresholds) == level_alerts(prev, cur, rest) + one);
        assert(occurrences(thresholds, t) == occurrences(rest, t) + if x == t {
            1nat
        } else {
            0nat
        });
    }
}

proof fn lemma_listed_once(thresholds: Seq<u8>, t: u8)
    requires
        thresholds.no_duplicates(),
        thresholds.contains(t),
    ensures
        occurrences(thresholds, t) == 1,
    decreases thresholds.len(),
{
    let rest = thresholds.drop_last();
    let j = choose|j: int| 0 <= j < thresholds.len() && thresholds[j] == t;
    if thresholds.last() == t {
        assert forall|x: u8| #[trigger] rest.contains(x) implies x != t by {
            let k = choose|k: int| 0 <= k < rest.len() && rest[k] == x;
            assert(thresholds[k] == x);
        }
        lemma_not_listed(rest, t);
    } else {
        assert(rest[j] == t);
        assert(rest.contains(t));
        assert(rest.no_duplicates());
        lemma_listed_once(rest, t);
    }
}

proof fn lemma_not_listed(thresholds: Seq<u8>, t: u8)
    requires
        forall|x: u8| #[trigger] thresholds.contains(x) ==> x != t,
    ensures
        occurrences(thresholds, t) == 0,
    decreases thresholds.len(),
{
    if thresholds.len() > 0 {
        let rest = thresholds.drop_last();
        assert forall|x: u8| #[trigger] rest.contains(x) implies x != t by {
            let k = choose|k: int| 0 <= k < rest.len() && rest[k] == x;
            assert(thresholds[k] == x);
            assert(thresholds.contains(x));
        }
        lemma_not_listed(rest, t);
        assert(thresholds[thresholds.len() - 1] == thresholds.last());
        assert(thresholds.contains(thresholds.last()));
    }
}

/// A fall from above a listed threshold to exactly that threshold raises its
/// level alert exactly once; a transition that ends anywhere else, such as
/// one that skips over the threshold, raises none for it.
pub proof fn lemma_threshold_alert_once(prev: Battery, cur: Battery, thresholds: Seq<u8>, t: u8)
    requires
        thresholds.no_duplicates(),
        thresholds.contains(t),
    ensures
        cur.percentage == t && prev.percentage > t ==> level_count(transition_alerts(prev, cur, thresholds), t) == 1,
        cur.percentage != t ==> level_count(transition_alerts(prev, cur, thresholds), t) == 0,
{
    lemma_level_count_concat(rule_alerts(prev, cur), level_alerts(prev, cur, thresholds), t);
    lemma_rule_alerts_have_no_level(prev, cur, t);
    lemma_level_alerts_count(prev, cur, thresholds, t);
    lemma_listed_once(thresholds, t);
}

proof fn lemma_partition_of_empty(cands: Seq<Seq<char>>, present: bool)
    ensures
        partition(Seq::empty(), cands, present) == Seq::<Seq<char>>::empty(),
{
}

} // verus!
