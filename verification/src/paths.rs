//! Paths, step by step.
use crate::text::{spells, texts};
use vstd::prelude::*;

verus! {

/// Steps of a path that has been followed, or `None` where it has climbed out.
pub open spec fn follow(parts: Seq<Seq<char>>) -> Option<Seq<Seq<char>>>
    decreases parts.len(),
{
    if parts.len() == 0 {
        Some(Seq::empty())
    } else {
        match follow(parts.drop_last()) {
            None => None,
            Some(steps) => {
                let p = parts.last();
                if p.len() == 0 || p == "."@ {
                    Some(steps)
                } else if p == ".."@ {
                    if steps.len() > 0 {
                        Some(steps.drop_last())
                    } else {
                        None
                    }
                } else {
                    Some(steps.push(p))
                }
            },
        }
    }
}

/// Follows the parts of a path: the steps that are left, or none where the path
/// climbs out of where it began.
pub fn followed<'a>(parts: &Vec<&'a [char]>) -> (r: Option<Vec<&'a [char]>>)
    ensures
        match r {
            Some(steps) => follow(texts(parts@)) == Some(texts(steps@)),
            None => follow(texts(parts@)) is None,
        },
{
    let ghost all = texts(parts@);
    let mut steps: Vec<&'a [char]> = Vec::new();
    let mut i: usize = 0;
    assert(texts(steps@) =~= Seq::<Seq<char>>::empty());
    assert(all.take(0) =~= Seq::<Seq<char>>::empty());
    while i < parts.len()
        invariant
            i <= parts.len(),
            all == texts(parts@),
            follow(all.take(i as int)) == Some(texts(steps@)),
        decreases parts.len() - i,
    {
        let part = parts[i];
        let ghost before = steps@;
        assert(all.take(i + 1).drop_last() =~= all.take(i as int));
        assert(all.take(i + 1).last() == part@);
        if part.len() == 0 || spells(part, ".") {
        } else if spells(part, "..") {
            if steps.len() == 0 {
                proof {
                    climbing_out_stays_out(all, i + 1);
                }
                return None;
            }
            steps.pop();
            assert(texts(steps@) =~= texts(before).drop_last());
        } else {
            steps.push(part);
            assert(texts(steps@) =~= texts(before).push(part@));
        }
        i = i + 1;
    }
    assert(all.take(i as int) =~= all);
    Some(steps)
}

proof fn climbing_out_stays_out(parts: Seq<Seq<char>>, n: int)
    requires
        0 <= n <= parts.len(),
        follow(parts.take(n)) is None,
    ensures
        follow(parts) is None,
    decreases parts.len(),
{
    if n == parts.len() {
        assert(parts.take(n) =~= parts);
    } else {
        assert(parts.drop_last().take(n) =~= parts.take(n));
        climbing_out_stays_out(parts.drop_last(), n);
    }
}

/// A path that is followed holds only steps that go down, and each of them is a part
/// of the path.
pub proof fn followed_paths_do_not_climb(parts: Seq<Seq<char>>)
    ensures
        follow(parts) matches Some(steps) ==> forall|i: int|
            0 <= i < steps.len() ==> goes_down(#[trigger] steps[i]) && parts.contains(steps[i]),
    decreases parts.len(),
{
    if parts.len() > 0 {
        let init = parts.drop_last();
        followed_paths_do_not_climb(init);
        if let (Some(before), Some(after)) = (follow(init), follow(parts)) {
            assert forall|i: int| 0 <= i < after.len() implies goes_down(#[trigger] after[i])
                && parts.contains(after[i]) by {
                if i < before.len() {
                    assert(after[i] == before[i]);
                    let k = init.index_of(before[i]);
                    assert(parts[k] == before[i]);
                } else {
                    assert(parts[parts.len() - 1] == after[i]);
                }
            }
        }
    }
}

/// Whether a part of a path is a step down.
pub open spec fn goes_down(part: Seq<char>) -> bool {
    part.len() > 0 && part != "."@ && part != ".."@
}

/// Steps that go down are followed as they are.
pub proof fn steps_down_are_followed(steps: Seq<Seq<char>>)
    requires
        forall|i: int| 0 <= i < steps.len() ==> goes_down(#[trigger] steps[i]),
    ensures
        follow(steps) == Some(steps),
    decreases steps.len(),
{
    if steps.len() > 0 {
        let init = steps.drop_last();
        assert forall|i: int| 0 <= i < init.len() implies goes_down(#[trigger] init[i]) by {
            assert(init[i] == steps[i]);
        }
        steps_down_are_followed(init);
        assert(goes_down(steps[steps.len() - 1]));
        assert(follow(steps) == Some(init.push(steps.last())));
        assert(init.push(steps.last()) =~= steps);
    } else {
        assert(steps =~= Seq::empty());
    }
}

/// A step down and up again is no step, nor is staying in place; climbing out leads
/// nowhere.
pub proof fn down_and_up_is_no_step(parts: Seq<Seq<char>>, name: Seq<char>)
    requires
        goes_down(name),
    ensures
        follow(parts.push(name).push(".."@)) == follow(parts),
        follow(parts.push("."@)) == follow(parts),
        follow(parts.push(""@)) == follow(parts),
        follow(parts) matches Some(steps) ==> follow(parts.push(name)) == Some(steps.push(name)),
        follow(parts) == Some(Seq::<Seq<char>>::empty()) ==> follow(parts.push(".."@)) is None,
{
    reveal_strlit("..");
    reveal_strlit(".");
    reveal_strlit("");
    let down = parts.push(name);
    assert(down.drop_last() =~= parts);
    assert(down.push(".."@).drop_last() =~= down);
    assert(parts.push("."@).drop_last() =~= parts);
    assert(parts.push(""@).drop_last() =~= parts);
    assert(parts.push(".."@).drop_last() =~= parts);
    assert(".."@.len() == 2 && "."@.len() == 1);
    if let Some(steps) = follow(parts) {
        assert(steps.push(name).drop_last() =~= steps);
    }
}

} // verus!
