//! The play queue as the side panel shows it: which queue positions are
//! listed, in which order, and what can be done with each.

use vstd::prelude::*;

verus! {

/// The tabs of the side panel: earlier songs, songs to come, lyrics.
#[derive(PartialEq, Eq, Structural, Debug, Clone, Copy)]
pub enum Tabs {
    Back,
    Next,
    Lyrics,
}

/// The positions of `order` that lie inside a queue of `len` tracks, in order.
pub open spec fn positions_within(order: Seq<usize>, len: nat) -> Seq<usize>
    decreases order.len(),
{
    if order.len() == 0 {
        Seq::empty()
    } else {
        let rest = positions_within(order.drop_last(), len);
        if (order.last() as nat) < len {
            rest.push(order.last())
        } else {
            rest
        }
    }
}

/// The queue positions in display order: the shuffle order (without
/// positions past the end of the queue) when shuffling, else every position
/// in turn.
pub open spec fn listed_positions(queue_len: nat, shuffle: bool, order: Seq<usize>) -> Seq<usize> {
    if shuffle {
        positions_within(order, queue_len)
    } else {
        Seq::new(queue_len, |i: int| i as usize)
    }
}

/// Lists the queue positions in display order.
pub fn queue_order(queue_len: usize, shuffle: bool, shuffle_order: &Vec<usize>) -> (res: Vec<usize>)
    ensures
        res@ == listed_positions(queue_len as nat, shuffle, shuffle_order@),
{
    let mut out: Vec<usize> = Vec::new();
    if shuffle {
        let mut i: usize = 0;
        while i < shuffle_order.len()
            invariant
                i <= shuffle_order.len(),
                out@ == positions_within(shuffle_order@.subrange(0, i as int), queue_len as nat),
            decreases shuffle_order.len() - i,
        {
            let p = shuffle_order[i];
            proof {
                let pre = shuffle_order@.subrange(0, i + 1);
                assert(pre.drop_last() =~= shuffle_order@.subrange(0, i as int));
                assert(pre.last() == p);
            }
            if p < queue_len {
                out.push(p);
            }
            i = i + 1;
        }
        assert(shuffle_order@.subrange(0, shuffle_order.len() as int) =~= shuffle_order@);
    } else {
        let mut i: usize = 0;
        while i < queue_len
            invariant
                i <= queue_len,
                out@ == Seq::new(i as nat, |k: int| k as usize),
            decreases queue_len - i,
        {
            out.push(i);
            assert(out@ =~= Seq::new((i + 1) as nat, |k: int| k as usize));
            i = i + 1;
        }
    }
    out
}

/// The positions before the current one, nearest first; none when the
/// current position lies past the end of the list.
pub open spec fn back_list(len: nat, current: nat) -> Seq<usize> {
    if current <= len {
        Seq::new(current, |k: int| (current - 1 - k) as usize)
    } else {
        Seq::empty()
    }
}

/// Lists the positions before the current one, nearest first.
pub fn back_positions(len: usize, current: usize) -> (res: Vec<usize>)
    ensures
        res@ == back_list(len as nat, current as nat),
{
    let mut out: Vec<usize> = Vec::new();
    if current <= len {
        let mut k: usize = 0;
        while k < current
            invariant
                current <= len,
                k <= current,
                out@ == Seq::new(k as nat, |j: int| (current - 1 - j) as usize),
            decreases current - k,
        {
            out.push(current - 1 - k);
            assert(out@ =~= Seq::new((k + 1) as nat, |j: int| (current - 1 - j) as usize));
            k = k + 1;
        }
    }
    assert(out@ =~= back_list(len as nat, current as nat));
    out
}

/// One entry of the "up next" list.
pub struct UpNextRow {
    /// Position of the entry in the listed queue.
    pub position: usize,
    /// The entry can move one place up without leaving the "up next" list.
    pub can_move_up: bool,
    /// The entry can move one place down without leaving the list.
    pub can_move_down: bool,
}

/// The mathematical value of an [`UpNextRow`].
pub struct UpNextRowView {
    pub position: nat,
    pub can_move_up: bool,
    pub can_move_down: bool,
}

impl View for UpNextRow {
    type V = UpNextRowView;

    open spec fn view(&self) -> UpNextRowView {
        UpNextRowView {
            position: self.position as nat,
            can_move_up: self.can_move_up,
            can_move_down: self.can_move_down,
        }
    }
}

/// The "up next" entries: every position after the current one, in order,
/// with whether it can move up (it is not the first of them) and down (it
/// is not the last position); none when the current position is the last
/// one or lies past the end of the list.
pub open spec fn up_next_list(len: nat, current: nat) -> Seq<UpNextRowView> {
    if current + 1 <= len {
        Seq::new(
            (len - current - 1) as nat,
            |k: int|
                UpNextRowView {
                    position: (current + 1 + k) as nat,
                    can_move_up: current + 1 + k > current + 1,
                    can_move_down: current + 1 + k + 1 < len,
                },
        )
    } else {
        Seq::empty()
    }
}

/// Lists the entries after the current one.
pub fn up_next_rows(len: usize, current: usize) -> (res: Vec<UpNextRow>)
    requires
        current < usize::MAX,
    ensures
        res@.map_values(|r: UpNextRow| r@) == up_next_list(len as nat, current as nat),
{
    let mut out: Vec<UpNextRow> = Vec::new();
    if current + 1 <= len {
        let mut p: usize = current + 1;
        while p < len
            invariant
                current + 1 <= p <= len,
                out@.map_values(|r: UpNextRow| r@) == Seq::new(
                    (p - current - 1) as nat,
                    |k: int|
                        UpNextRowView {
                            position: (current + 1 + k) as nat,
                            can_move_up: current + 1 + k > current + 1,
                            can_move_down: current + 1 + k + 1 < len,
                        },
                ),
            decreases len - p,
        {
            let row = UpNextRow { position: p, can_move_up: p > current + 1, can_move_down: p + 1 < len };
            let ghost before = out@.map_values(|r: UpNextRow| r@);
            out.push(row);
            assert(out@.map_values(|r: UpNextRow| r@) =~= before.push(row@));
            assert(out@.map_values(|r: UpNextRow| r@) =~= Seq::new(
                (p + 1 - current - 1) as nat,
                |k: int|
                    UpNextRowView {
                        position: (current + 1 + k) as nat,
                        can_move_up: current + 1 + k > current + 1,
                        can_move_down: current + 1 + k + 1 < len,
                    },
            ));
            p = p + 1;
        }
    }
    assert(out@.map_values(|r: UpNextRow| r@) =~= up_next_list(len as nat, current as nat));
    out
}

/// The sum of `s`.
pub open spec fn total_of(s: Seq<u64>) -> int
    decreases s.len(),
{
    if s.len() == 0 {
        0
    } else {
        total_of(s.drop_last()) + s.last()
    }
}

/// The play times of the entries after the current one.
pub open spec fn after_current(durations: Seq<u64>, current: nat) -> Seq<u64> {
    if current + 1 <= durations.len() {
        durations.subrange((current + 1) as int, durations.len() as int)
    } else {
        Seq::empty()
    }
}

/// A prefix of a list of play times sums to no more than the whole list.
pub proof fn lemma_total_prefix_bounded(s: Seq<u64>, i: int)
    requires
        0 <= i <= s.len(),
    ensures
        0 <= total_of(s.subrange(0, i)) <= total_of(s),
    decreases s.len(),
{
    if s.len() > 0 {
        if i == s.len() {
            assert(s.subrange(0, i) =~= s);
            lemma_total_prefix_bounded(s.drop_last(), s.len() - 1);
            assert(s.drop_last().subrange(0, s.len() - 1) =~= s.drop_last());
        } else {
            lemma_total_prefix_bounded(s.drop_last(), i);
            assert(s.drop_last().subrange(0, i) =~= s.subrange(0, i));
        }
    } else {
        assert(s.subrange(0, i) =~= s);
    }
}

/// The total play time of the entries after the current one.
pub fn up_next_duration(durations: &Vec<u64>, current: usize) -> (res: u64)
    requires
        current < usize::MAX,
        total_of(after_current(durations@, current as nat)) <= u64::MAX,
    ensures
        res == total_of(after_current(durations@, current as nat)),
{
    if current + 1 > durations.len() {
        return 0;
    }
    let ghost rest = after_current(durations@, current as nat);
    let mut total: u64 = 0;
    let mut p: usize = current + 1;
    while p < durations.len()
        invariant
            current + 1 <= p <= durations.len(),
            rest == durations@.subrange(current + 1, durations.len() as int),
            total_of(rest) <= u64::MAX,
            total == total_of(rest.subrange(0, p - current - 1)),
        decreases durations.len() - p,
    {
        proof {
            let k = p - current - 1;
            let pre = rest.subrange(0, k + 1);
            assert(pre.drop_last() =~= rest.subrange(0, k));
            assert(pre.last() == durations@[p as int]);
            lemma_total_prefix_bounded(rest, k + 1);
        }
        total = total + durations[p];
        p = p + 1;
    }
    assert(rest.subrange(0, rest.len() as int) =~= rest);
    total
}

/// Every position of a list of `len` entries lies before the current
/// position exactly when the back list holds it, and after it exactly when
/// the "up next" list holds it.
pub proof fn law_queue_views_partition(len: usize, current: usize, p: usize)
    requires
        current < len,
        p < len,
    ensures
        (p < current) <==> back_list(len as nat, current as nat).contains(p),
        (p > current) <==> exists|k: int|
            0 <= k < up_next_list(len as nat, current as nat).len()
                && up_next_list(len as nat, current as nat)[k].position == p,
{
    let back = back_list(len as nat, current as nat);
    let next = up_next_list(len as nat, current as nat);
    if p < current {
        assert(back[current - 1 - p] == p);
    }
    if back.contains(p) {
        let k = choose|k: int| 0 <= k < back.len() && back[k] == p;
        assert(back[k] == (current - 1 - k) as usize);
    }
    if p > current {
        assert(next[p - current - 1].position == p);
    }
}

} // verus!
