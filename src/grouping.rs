//! Folding a stream of order lines into per-key accumulators: for each key, in
//! order of first appearance, the sum of the lines' values, their number and
//! the sum of their quantities.

use vstd::prelude::*;

verus! {

/// One order's contribution to the group named by `key`.
#[derive(Clone, Debug)]
pub struct Line {
    pub key: String,
    pub value: i128,
    pub quantity: i32,
}

pub struct LineModel {
    pub key: Seq<char>,
    pub value: int,
    pub quantity: int,
}

/// The accumulator of one key.
#[derive(Clone, Debug)]
pub struct Group {
    pub key: String,
    pub total: i128,
    pub count: i64,
    pub quantity: i64,
}

pub struct GroupModel {
    pub key: Seq<char>,
    pub total: int,
    pub count: int,
    pub quantity: int,
}

impl Line {
    pub open spec fn model(self) -> LineModel {
        LineModel { key: self.key@, value: self.value as int, quantity: self.quantity as int }
    }
}

impl Group {
    pub open spec fn model(self) -> GroupModel {
        GroupModel {
            key: self.key@,
            total: self.total as int,
            count: self.count as int,
            quantity: self.quantity as int,
        }
    }
}

pub open spec fn line_models(lines: Seq<Line>) -> Seq<LineModel> {
    lines.map_values(|l: Line| l.model())
}

/// The keys of `lines`, each once, in order of first appearance.
pub open spec fn keys_of(lines: Seq<LineModel>) -> Seq<Seq<char>>
    decreases lines.len(),
{
    if lines.len() == 0 {
        Seq::empty()
    } else {
        let keys = keys_of(lines.drop_last());
        if keys.contains(lines.last().key) {
            keys
        } else {
            keys.push(lines.last().key)
        }
    }
}

pub open spec fn key_total(lines: Seq<LineModel>, k: Seq<char>) -> int
    decreases lines.len(),
{
    if lines.len() == 0 {
        0
    } else {
        key_total(lines.drop_last(), k) + if lines.last().key == k {
            lines.last().value
        } else {
            0
        }
    }
}

pub open spec fn key_count(lines: Seq<LineModel>, k: Seq<char>) -> int
    decreases lines.len(),
{
    if lines.len() == 0 {
        0
    } else {
        key_count(lines.drop_last(), k) + if lines.last().key == k {
            1int
        } else {
            0int
        }
    }
}

pub open spec fn key_quantity(lines: Seq<LineModel>, k: Seq<char>) -> int
    decreases lines.len(),
{
    if lines.len() == 0 {
        0
    } else {
        key_quantity(lines.drop_last(), k) + if lines.last().key == k {
            lines.last().quantity
        } else {
            0
        }
    }
}

/// The sum of all line values.
pub open spec fn line_sum(lines: Seq<LineModel>) -> int
    decreases lines.len(),
{
    if lines.len() == 0 {
        0
    } else {
        line_sum(lines.drop_last()) + lines.last().value
    }
}

pub open spec fn abs(x: int) -> int {
    if x < 0 {
        -x
    } else {
        x
    }
}

/// The sum of the magnitudes of all line values.
pub open spec fn abs_sum(lines: Seq<LineModel>) -> int
    decreases lines.len(),
{
    if lines.len() == 0 {
        0
    } else {
        abs_sum(lines.drop_last()) + abs(lines.last().value)
    }
}

pub open spec fn group_of(lines: Seq<LineModel>, k: Seq<char>) -> GroupModel {
    GroupModel {
        key: k,
        total: key_total(lines, k),
        count: key_count(lines, k),
        quantity: key_quantity(lines, k),
    }
}

/// One accumulator per key of `lines`, in order of first appearance.
pub open spec fn groups_of(lines: Seq<LineModel>) -> Seq<GroupModel> {
    keys_of(lines).map_values(|k: Seq<char>| group_of(lines, k))
}

/// The sum of the totals of the groups named by `keys`.
pub open spec fn group_sum(keys: Seq<Seq<char>>, lines: Seq<LineModel>) -> int
    decreases keys.len(),
{
    if keys.len() == 0 {
        0
    } else {
        group_sum(keys.drop_last(), lines) + key_total(lines, keys.last())
    }
}

/// The keys after one more line are the keys before, and the new line's key.
proof fn lemma_keys_step(lines: Seq<LineModel>)
    requires
        lines.len() > 0,
    ensures
        forall|k: Seq<char>|
            #![trigger keys_of(lines).contains(k)]
            keys_of(lines).contains(k) <==> (keys_of(lines.drop_last()).contains(k) || k
                == lines.last().key),
{
    let ks = keys_of(lines.drop_last());
    let x = lines.last().key;
    if !ks.contains(x) {
        let kp = ks.push(x);
        assert forall|k: Seq<char>| kp.contains(k) <==> (ks.contains(k) || k == x) by {
            if ks.contains(k) {
                let i = choose|i: int| 0 <= i < ks.len() && ks[i] == k;
                assert(kp[i] == k);
            }
            if k == x {
                assert(kp[ks.len() as int] == k);
            }
            if kp.contains(k) {
                let i = choose|i: int| 0 <= i < kp.len() && kp[i] == k;
                if i < ks.len() {
                    assert(ks[i] == k);
                }
            }
        }
    }
}

/// The keys of `lines` are distinct, and are exactly the keys its lines carry.
pub proof fn lemma_keys_of(lines: Seq<LineModel>)
    ensures
        keys_of(lines).no_duplicates(),
        forall|k: Seq<char>|
            keys_of(lines).contains(k) <==> exists|i: int|
                0 <= i < lines.len() && (#[trigger] lines[i]).key == k,
    decreases lines.len(),
{
    if lines.len() > 0 {
        let p = lines.drop_last();
        lemma_keys_of(p);
        lemma_keys_step(lines);
        assert forall|k: Seq<char>|
            keys_of(lines).contains(k) <==> exists|i: int|
                0 <= i < lines.len() && (#[trigger] lines[i]).key == k by {
            if keys_of(lines).contains(k) {
                if keys_of(p).contains(k) {
                    let i = choose|i: int| 0 <= i < p.len() && (#[trigger] p[i]).key == k;
                    assert(lines[i] == p[i]);
                } else {
                    assert(lines[lines.len() - 1].key == k);
                }
            }
            if exists|i: int| 0 <= i < lines.len() && (#[trigger] lines[i]).key == k {
                let i = choose|i: int| 0 <= i < lines.len() && (#[trigger] lines[i]).key == k;
                if i < lines.len() - 1 {
                    assert(p[i] == lines[i]);
                    assert(keys_of(p).contains(k));
                } else {
                    assert(keys_of(lines).contains(lines.last().key));
                }
            }
        }
    }
}

/// Every listed key has at least one line.
pub proof fn lemma_listed_keys_counted(lines: Seq<LineModel>, k: Seq<char>)
    requires
        keys_of(lines).contains(k),
    ensures
        key_count(lines, k) >= 1,
    decreases lines.len(),
{
    let p = lines.drop_last();
    lemma_keys_step(lines);
    lemma_count_nonnegative(p, k);
    if keys_of(p).contains(k) {
        lemma_listed_keys_counted(p, k);
    }
}

proof fn lemma_count_nonnegative(lines: Seq<LineModel>, k: Seq<char>)
    ensures
        key_count(lines, k) >= 0,
    decreases lines.len(),
{
    if lines.len() > 0 {
        lemma_count_nonnegative(lines.drop_last(), k);
    }
}

/// A key that no line carries has an empty group.
pub proof fn lemma_absent_key(lines: Seq<LineModel>, k: Seq<char>)
    requires
        !keys_of(lines).contains(k),
    ensures
        key_total(lines, k) == 0,
        key_count(lines, k) == 0,
        key_quantity(lines, k) == 0,
    decreases lines.len(),
{
    if lines.len() > 0 {
        let p = lines.drop_last();
        lemma_keys_step(lines);
        lemma_absent_key(p, k);
    }
}

/// Adding a line adds its value to the sum over distinct keys exactly when its
/// key is among them.
pub proof fn lemma_group_sum_push(keys: Seq<Seq<char>>, p: Seq<LineModel>, l: LineModel)
    requires
        keys.no_duplicates(),
    ensures
        group_sum(keys, p.push(l)) == group_sum(keys, p) + if keys.contains(l.key) {
            l.value
        } else {
            0
        },
    decreases keys.len(),
{
    let s = p.push(l);
    assert(s.drop_last() =~= p);
    if keys.len() > 0 {
        let ks = keys.drop_last();
        assert(ks.no_duplicates());
        lemma_group_sum_push(ks, p, l);
        if keys.last() == l.key {
            assert(!ks.contains(l.key));
        } else {
            if ks.contains(l.key) {
                let i = choose|i: int| 0 <= i < ks.len() && ks[i] == l.key;
                assert(keys[i] == l.key);
            }
            if keys.contains(l.key) {
                let i = choose|i: int| 0 <= i < keys.len() && keys[i] == l.key;
                assert(ks[i] == l.key);
            }
        }
    }
}

/// The group totals add up to the sum of all lines.
pub proof fn lemma_group_sum(lines: Seq<LineModel>)
    ensures
        group_sum(keys_of(lines), lines) == line_sum(lines),
    decreases lines.len(),
{
    if lines.len() > 0 {
        let p = lines.drop_last();
        let l = lines.last();
        assert(p.push(l) =~= lines);
        lemma_group_sum(p);
        lemma_keys_of(p);
        lemma_group_sum_push(keys_of(p), p, l);
        if !keys_of(p).contains(l.key) {
            let keys = keys_of(p).push(l.key);
            assert(keys.drop_last() =~= keys_of(p));
            lemma_absent_key(p, l.key);
        }
    }
}

/// No group total exceeds the sum of magnitudes, nor a group's count or
/// quantity the number of lines and their largest quantities.
pub proof fn lemma_group_bounds(lines: Seq<LineModel>, k: Seq<char>)
    requires
        forall|i: int| 0 <= i < lines.len() ==> -0x8000_0000 <= #[trigger] lines[i].quantity < 0x8000_0000,
    ensures
        abs(key_total(lines, k)) <= abs_sum(lines),
        0 <= key_count(lines, k) <= lines.len(),
        abs(key_quantity(lines, k)) <= lines.len() * 0x8000_0000,
        abs(line_sum(lines)) <= abs_sum(lines),
        abs_sum(lines) >= 0,
    decreases lines.len(),
{
    if lines.len() > 0 {
        let p = lines.drop_last();
        assert forall|i: int| 0 <= i < p.len() implies -0x8000_0000 <= #[trigger] p[i].quantity
            < 0x8000_0000 by {
            assert(p[i] == lines[i]);
        }
        assert(lines.last() == lines[lines.len() - 1]);
        lemma_group_bounds(p, k);
    }
}

/// A prefix's magnitudes sum to no more than the whole stream's.
pub proof fn lemma_abs_sum_prefix(lines: Seq<LineModel>, i: int)
    requires
        0 <= i <= lines.len(),
    ensures
        abs_sum(lines.take(i)) <= abs_sum(lines),
    decreases lines.len() - i,
{
    if i < lines.len() {
        lemma_abs_sum_prefix(lines, i + 1);
        assert(lines.take(i + 1).drop_last() =~= lines.take(i));
    } else {
        assert(lines.take(i) =~= lines);
    }
}

/// The position of the group whose key is `key`, if there is one.
fn find_group(groups: &Vec<Group>, key: &String) -> (r: Option<usize>)
    ensures
        match r {
            Some(j) => j < groups.len() && groups@[j as int].key@ == key@,
            None => forall|j: int| 0 <= j < groups.len() ==> groups@[j].key@ != key@,
        },
{
    let mut j: usize = 0;
    while j < groups.len()
        invariant
            j <= groups.len(),
            forall|x: int| 0 <= x < j ==> groups@[x].key@ != key@,
        decreases groups.len() - j,
    {
        if groups[j].key == *key {
            return Some(j);
        }
        j = j + 1;
    }
    None
}

/// Folds `lines` into one accumulator per key, in order of first appearance.
/// The bounds keep every partial sum within the integer types.
pub fn accumulate(lines: &Vec<Line>) -> (r: Vec<Group>)
    requires
        lines.len() <= u32::MAX,
        abs_sum(line_models(lines@)) <= i128::MAX,
    ensures
        r.len() == groups_of(line_models(lines@)).len(),
        forall|j: int| 0 <= j < r.len() ==> r[j].model() == groups_of(line_models(lines@))[j],
{
    let ghost all = line_models(lines@);
    let mut groups: Vec<Group> = Vec::new();
    let mut i: usize = 0;
    while i < lines.len()
        invariant
            i <= lines.len() <= u32::MAX,
            all == line_models(lines@),
            abs_sum(all) <= i128::MAX,
            groups.len() == keys_of(all.take(i as int)).len(),
            forall|j: int|
                0 <= j < groups.len() ==> (#[trigger] groups@[j]).model() == group_of(
                    all.take(i as int),
                    keys_of(all.take(i as int))[j],
                ),
        decreases lines.len() - i,
    {
        let line = &lines[i];
        let ghost before = all.take(i as int);
        let ghost after = all.take(i as int + 1);
        let ghost k = line.key@;
        proof {
            assert(after.drop_last() =~= before);
            assert(after.last() == line.model());
            lemma_keys_of(before);
            lemma_keys_step(after);
            lemma_abs_sum_prefix(all, i as int + 1);
            assert forall|x: int| 0 <= x < after.len() implies -0x8000_0000 <= #[trigger] after[x].quantity
                < 0x8000_0000 by {
                assert(after[x] == lines@[x].model());
            }
            lemma_group_bounds(after, k);
        }
        match find_group(&groups, &line.key) {
            Some(j) => {
                proof {
                    assert(keys_of(before)[j as int] == k);
                    assert(keys_of(before).contains(k));
                    assert(keys_of(after) == keys_of(before));
                }
                let g = &groups[j];
                let updated = Group {
                    key: g.key.clone(),
                    total: g.total + line.value,
                    count: g.count + 1,
                    quantity: g.quantity + line.quantity as i64,
                };
                groups.set(j, updated);
                proof {
                    assert forall|x: int| 0 <= x < groups.len() implies (#[trigger] groups@[x]).model()
                        == group_of(after, keys_of(after)[x]) by {
                        if x != j {
                            assert(keys_of(before)[x] != keys_of(before)[j as int]);
                        }
                    }
                }
            },
            None => {
                proof {
                    assert forall|x: int| 0 <= x < keys_of(before).len() implies keys_of(before)[x]
                        != k by {
                        assert(groups@[x].model().key == keys_of(before)[x]);
                    }
                    assert(!keys_of(before).contains(k));
                    lemma_absent_key(before, k);
                    assert(keys_of(after) == keys_of(before).push(k));
                }
                groups.push(
                    Group {
                        key: line.key.clone(),
                        total: line.value,
                        count: 1,
                        quantity: line.quantity as i64,
                    },
                );
                proof {
                    assert forall|x: int| 0 <= x < groups.len() implies (#[trigger] groups@[x]).model()
                        == group_of(after, keys_of(after)[x]) by {
                        if x < groups.len() - 1 {
                            assert(keys_of(before)[x] != k);
                        }
                    }
                }
            },
        }
        i = i + 1;
    }
    proof {
        assert(all.take(lines.len() as int) =~= all);
    }
    groups
}

} // verus!
