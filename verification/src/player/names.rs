//! Byte strings in dictionary order: lists of names kept in order, and the
//! neighbours of a file among the files of its directory.

use vstd::prelude::*;

verus! {

/// The order of byte strings as a dictionary has it: by the first byte in
/// which two strings differ, and a string before all that it starts.
pub open spec fn bytes_lt(a: Seq<u8>, b: Seq<u8>) -> bool
    decreases a.len(),
{
    if b.len() == 0 {
        false
    } else if a.len() == 0 {
        true
    } else if a[0] != b[0] {
        a[0] < b[0]
    } else {
        bytes_lt(a.drop_first(), b.drop_first())
    }
}

/// No byte string comes before itself.
pub proof fn lemma_bytes_lt_irreflexive(a: Seq<u8>)
    ensures
        !bytes_lt(a, a),
    decreases a.len(),
{
    if a.len() > 0 {
        lemma_bytes_lt_irreflexive(a.drop_first());
    }
}

/// What comes before something that comes before a third comes before the third.
pub proof fn lemma_bytes_lt_transitive(a: Seq<u8>, b: Seq<u8>, c: Seq<u8>)
    requires
        bytes_lt(a, b),
        bytes_lt(b, c),
    ensures
        bytes_lt(a, c),
    decreases a.len(),
{
    if a.len() > 0 && b.len() > 0 && c.len() > 0 && a[0] == b[0] && b[0] == c[0] {
        lemma_bytes_lt_transitive(a.drop_first(), b.drop_first(), c.drop_first());
    }
}

/// Of two different byte strings one comes before the other.
pub proof fn lemma_bytes_lt_total(a: Seq<u8>, b: Seq<u8>)
    ensures
        bytes_lt(a, b) || bytes_lt(b, a) || a == b,
    decreases a.len(),
{
    if a.len() == 0 || b.len() == 0 {
        if a.len() == 0 && b.len() == 0 {
            assert(a =~= b);
        }
    } else if a[0] == b[0] {
        lemma_bytes_lt_total(a.drop_first(), b.drop_first());
        if a.drop_first() == b.drop_first() {
            assert(a =~= seq![a[0]] + a.drop_first());
            assert(b =~= seq![b[0]] + b.drop_first());
        }
    }
}

/// Two strings that agree in their first `i` bytes compare as what follows.
proof fn lemma_bytes_lt_skips_common_prefix(a: Seq<u8>, b: Seq<u8>, i: int)
    requires
        0 <= i <= a.len(),
        i <= b.len(),
        forall|k: int| 0 <= k < i ==> a[k] == b[k],
    ensures
        bytes_lt(a, b) == bytes_lt(a.skip(i), b.skip(i)),
    decreases i,
{
    if i > 0 {
        assert(a.drop_first().skip(i - 1) =~= a.skip(i));
        assert(b.drop_first().skip(i - 1) =~= b.skip(i));
        lemma_bytes_lt_skips_common_prefix(a.drop_first(), b.drop_first(), i - 1);
    } else {
        assert(a.skip(0) =~= a);
        assert(b.skip(0) =~= b);
    }
}

/// Tests [`bytes_lt`].
pub fn bytes_less(a: &Vec<u8>, b: &Vec<u8>) -> (less: bool)
    ensures
        less == bytes_lt(a@, b@),
{
    let mut i: usize = 0;
    loop
        invariant
            i <= a@.len(),
            i <= b@.len(),
            forall|k: int| 0 <= k < i ==> a@[k] == b@[k],
        decreases a@.len() - i,
    {
        proof {
            lemma_bytes_lt_skips_common_prefix(a@, b@, i as int);
        }
        if i >= b.len() {
            return false;
        }
        if i >= a.len() {
            return true;
        }
        if a[i] != b[i] {
            assert(a@.skip(i as int)[0] == a@[i as int]);
            assert(b@.skip(i as int)[0] == b@[i as int]);
            return a[i] < b[i];
        }
        i += 1;
    }
}

/// Whether the names stand in dictionary order with none twice.
pub open spec fn sorted_names(names: Seq<Vec<u8>>) -> bool {
    forall|i: int, j: int| 0 <= i < j < names.len() ==> bytes_lt(names[i]@, names[j]@)
}

/// Whether `name` is among the names.
pub open spec fn holds_name(names: Seq<Vec<u8>>, name: Seq<u8>) -> bool {
    exists|i: int| 0 <= i < names.len() && names[i]@ == name
}

/// Whether two byte strings are the same.
pub fn bytes_eq(a: &Vec<u8>, b: &Vec<u8>) -> (same: bool)
    ensures
        same == (a@ == b@),
{
    if a.len() != b.len() {
        return false;
    }
    let mut i: usize = 0;
    while i < a.len()
        invariant
            i <= a@.len(),
            a@.len() == b@.len(),
            forall|k: int| 0 <= k < i ==> a@[k] == b@[k],
        decreases a@.len() - i,
    {
        if a[i] != b[i] {
            return false;
        }
        i += 1;
    }
    assert(a@ =~= b@);
    true
}

/// Whether `name` starts with `prefix`.
pub fn bytes_start_with(name: &Vec<u8>, prefix: &Vec<u8>) -> (starts: bool)
    ensures
        starts == prefix@.is_prefix_of(name@),
{
    if prefix.len() > name.len() {
        return false;
    }
    let mut i: usize = 0;
    while i < prefix.len()
        invariant
            i <= prefix@.len(),
            prefix@.len() <= name@.len(),
            forall|k: int| 0 <= k < i ==> name@[k] == prefix@[k],
        decreases prefix@.len() - i,
    {
        if name[i] != prefix[i] {
            assert(name@.subrange(0, prefix@.len() as int)[i as int] == name@[i as int]);
            return false;
        }
        i += 1;
    }
    assert(name@.subrange(0, prefix@.len() as int) =~= prefix@);
    true
}

/// Puts a name in its place among names in dictionary order, unless it is
/// there already.
pub fn insert_name(names: &mut Vec<Vec<u8>>, name: Vec<u8>)
    requires
        sorted_names(old(names)@),
    ensures
        sorted_names(final(names)@),
        forall|x: Seq<u8>|
            holds_name(final(names)@, x) <==> (holds_name(old(names)@, x) || x == name@),
{
    let mut i: usize = 0;
    let mut found: bool = false;
    while i < names.len() && !found
        invariant
            i <= names@.len(),
            names@ == old(names)@,
            forall|k: int| 0 <= k < i ==> bytes_lt(names@[k]@, name@),
            found ==> i < names@.len() && !bytes_lt(names@[i as int]@, name@),
        decreases names@.len() - i + if found { 0int } else { 1int },
    {
        if bytes_less(&names[i], &name) {
            i += 1;
        } else {
            found = true;
        }
    }
    let ghost before = names@;
    if i < names.len() && bytes_eq(&names[i], &name) {
        assert forall|x: Seq<u8>| holds_name(before, x) || x == name@ implies holds_name(
            before,
            x,
        ) by {
            if x == name@ {
                assert(before[i as int]@ == x);
            }
        }
        return;
    }
    let ghost added = name@;
    names.insert(i, name);
    proof {
        let after = names@;
        assert(after == before.insert(i as int, after[i as int]));
        assert(after[i as int]@ == added);
        assert forall|a: int, b: int| 0 <= a < b < after.len() implies bytes_lt(
            after[a]@,
            after[b]@,
        ) by {
            if b < i {
                assert(after[a] == before[a] && after[b] == before[b]);
            } else if b == i {
                assert(after[a] == before[a]);
            } else if a == i {
                // the name comes before what stood at its place, and so before all that follows
                assert(after[b] == before[b - 1]);
                lemma_bytes_lt_total(before[i as int]@, added);
                if b - 1 > i {
                    lemma_bytes_lt_transitive(added, before[i as int]@, before[b - 1]@);
                }
            } else if a < i {
                assert(after[a] == before[a] && after[b] == before[b - 1]);
            } else {
                assert(after[a] == before[a - 1] && after[b] == before[b - 1]);
            }
        }
        assert forall|x: Seq<u8>| holds_name(after, x) <==> (holds_name(before, x) || x
            == added) by {
            if holds_name(after, x) {
                let k = choose|k: int| 0 <= k < after.len() && after[k]@ == x;
                if k < i {
                    assert(before[k]@ == x);
                } else if k > i {
                    assert(before[k - 1]@ == x);
                }
            }
            if holds_name(before, x) {
                let k = choose|k: int| 0 <= k < before.len() && before[k]@ == x;
                if k < i {
                    assert(after[k]@ == x);
                } else {
                    assert(after[k + 1]@ == x);
                }
            }
            if x == added {
                assert(after[i as int]@ == x);
            }
        }
    }
}

/// The byte that parts a list of names.
pub const COMMA: u8 = 0x2c;

/// Whether the bytes of `list` from `a` up to `b` are one of the names that
/// the commas of `list` part from each other: a stretch without a comma
/// that begins at the start or after a comma, and ends at the end or at a
/// comma.
pub open spec fn is_part_at(list: Seq<u8>, a: int, b: int) -> bool {
    &&& 0 <= a <= b <= list.len()
    &&& a == 0 || list[a - 1] == COMMA
    &&& b == list.len() || list[b] == COMMA
    &&& forall|k: int| a <= k < b ==> list[k] != COMMA
}

/// Whether `name` is one of the names in the comma-parted `list`.
pub open spec fn is_part(list: Seq<u8>, name: Seq<u8>) -> bool {
    exists|a: int, b: int| is_part_at(list, a, b) && list.subrange(a, b) == name
}

/// The parts of `list` that end before `limit`.
pub open spec fn is_part_before(list: Seq<u8>, name: Seq<u8>, limit: int) -> bool {
    exists|a: int, b: int| is_part_at(list, a, b) && b < limit && list.subrange(a, b) == name
}

/// A part that ends inside the stretch being read, or at its end, can only
/// be that stretch.
proof fn lemma_part_is_current(list: Seq<u8>, start: int, end: int, a: int, b: int)
    requires
        0 <= start <= end <= list.len(),
        start == 0 || list[start - 1] == COMMA,
        forall|k: int| start <= k < end ==> list[k] != COMMA,
        end == list.len() || list[end] == COMMA,
        is_part_at(list, a, b),
        start <= b <= end,
    ensures
        a == start,
        b == end,
{
    if b < end {
        assert(list[b] != COMMA);
    }
    if a < start {
        assert(list[start - 1] != COMMA);
    }
    if a > start {
        assert(list[a - 1] != COMMA);
    }
}

/// Puts every name of the comma-parted `list` in its place among names in
/// dictionary order.
pub fn insert_parts(names: &mut Vec<Vec<u8>>, list: &Vec<u8>)
    requires
        sorted_names(old(names)@),
    ensures
        sorted_names(final(names)@),
        forall|x: Seq<u8>|
            holds_name(final(names)@, x) <==> (holds_name(old(names)@, x) || is_part(list@, x)),
{
    let mut start: usize = 0;
    let mut i: usize = 0;
    let mut part: Vec<u8> = Vec::new();
    while i < list.len()
        invariant
            start <= i <= list@.len(),
            start == 0 || list@[start - 1] == COMMA,
            forall|k: int| start <= k < i ==> list@[k] != COMMA,
            part@ == list@.subrange(start as int, i as int),
            sorted_names(names@),
            forall|x: Seq<u8>|
                holds_name(names@, x) <==> (holds_name(old(names)@, x) || is_part_before(
                    list@,
                    x,
                    start as int,
                )),
        decreases list@.len() - i,
    {
        if list[i] == COMMA {
            let ghost before = names@;
            let ghost name = part@;
            insert_name(names, part);
            part = Vec::new();
            proof {
                assert forall|x: Seq<u8>|
                    holds_name(names@, x) <==> (holds_name(old(names)@, x) || is_part_before(
                        list@,
                        x,
                        i + 1,
                    )) by {
                    if is_part_before(list@, x, i + 1) {
                        let (a, b) = choose|a: int, b: int|
                            is_part_at(list@, a, b) && b < i + 1 && list@.subrange(a, b) == x;
                        if b >= start {
                            lemma_part_is_current(list@, start as int, i as int, a, b);
                        } else {
                            assert(is_part_before(list@, x, start as int));
                        }
                    }
                    if is_part_before(list@, x, start as int) {
                        let (a, b) = choose|a: int, b: int|
                            is_part_at(list@, a, b) && b < start && list@.subrange(a, b) == x;
                        assert(is_part_at(list@, a, b) && b < i + 1);
                    }
                    if x == name {
                        assert(is_part_at(list@, start as int, i as int));
                    }
                }
                assert(list@.subrange(i + 1, i + 1) =~= Seq::<u8>::empty());
            }
            start = i + 1;
        } else {
            part.push(list[i]);
            assert(part@ =~= list@.subrange(start as int, i + 1));
        }
        i += 1;
    }
    let ghost name = part@;
    insert_name(names, part);
    proof {
        let end = list@.len() as int;
        assert forall|x: Seq<u8>|
            holds_name(names@, x) <==> (holds_name(old(names)@, x) || is_part(list@, x)) by {
            if is_part(list@, x) {
                let (a, b) = choose|a: int, b: int|
                    is_part_at(list@, a, b) && list@.subrange(a, b) == x;
                if b >= start {
                    lemma_part_is_current(list@, start as int, end, a, b);
                } else {
                    assert(is_part_before(list@, x, start as int));
                }
            }
            if is_part_before(list@, x, start as int) {
                let (a, b) = choose|a: int, b: int|
                    is_part_at(list@, a, b) && b < start && list@.subrange(a, b) == x;
                assert(is_part_at(list@, a, b) && list@.subrange(a, b) == x);
            }
            if x == name {
                assert(is_part_at(list@, start as int, end));
            }
        }
    }
}

/// Whether `name` comes after `bound`; every name comes after no bound.
pub open spec fn is_above(name: Seq<u8>, bound: Option<Seq<u8>>) -> bool {
    match bound {
        Some(b) => bytes_lt(b, name),
        None => true,
    }
}

/// Whether `name` comes before `bound`; every name comes before no bound.
pub open spec fn is_below(name: Seq<u8>, bound: Option<Seq<u8>>) -> bool {
    match bound {
        Some(b) => bytes_lt(name, b),
        None => true,
    }
}

/// The view of a bound that may be absent.
pub open spec fn bound_view(bound: Option<&Vec<u8>>) -> Option<Seq<u8>> {
    match bound {
        Some(b) => Some(b@),
        None => None,
    }
}

/// The place of the first of the names that come after `bound`, if any does.
pub fn least_above(names: &Vec<Vec<u8>>, bound: Option<&Vec<u8>>) -> (place: Option<usize>)
    ensures
        match place {
            Some(p) => {
                &&& p < names@.len()
                &&& is_above(names@[p as int]@, bound_view(bound))
                &&& forall|j: int|
                    0 <= j < names@.len() && is_above(names@[j]@, bound_view(bound)) ==> !bytes_lt(
                        names@[j]@,
                        names@[p as int]@,
                    )
            },
            None => forall|j: int|
                0 <= j < names@.len() ==> !is_above(names@[j]@, bound_view(bound)),
        },
{
    let mut best: Option<usize> = None;
    let mut i: usize = 0;
    while i < names.len()
        invariant
            i <= names@.len(),
            match best {
                Some(p) => {
                    &&& p < i
                    &&& is_above(names@[p as int]@, bound_view(bound))
                    &&& forall|j: int|
                        0 <= j < i && is_above(names@[j]@, bound_view(bound)) ==> !bytes_lt(
                            names@[j]@,
                            names@[p as int]@,
                        )
                },
                None => forall|j: int| 0 <= j < i ==> !is_above(names@[j]@, bound_view(bound)),
            },
        decreases names@.len() - i,
    {
        let above = match bound {
            Some(b) => bytes_less(b, &names[i]),
            None => true,
        };
        if above {
            match best {
                Some(p) => {
                    if bytes_less(&names[i], &names[p]) {
                        proof {
                            assert forall|j: int|
                                0 <= j < i + 1 && is_above(
                                    names@[j]@,
                                    bound_view(bound),
                                ) implies !bytes_lt(names@[j]@, names@[i as int]@) by {
                                if j < i && bytes_lt(names@[j]@, names@[i as int]@) {
                                    lemma_bytes_lt_transitive(
                                        names@[j]@,
                                        names@[i as int]@,
                                        names@[p as int]@,
                                    );
                                }
                                if j == i {
                                    lemma_bytes_lt_irreflexive(names@[i as int]@);
                                }
                            }
                        }
                        best = Some(i);
                    }
                },
                None => {
                    proof {
                        lemma_bytes_lt_irreflexive(names@[i as int]@);
                    }
                    best = Some(i);
                },
            }
        }
        i += 1;
    }
    best
}

/// The place of the last of the names that come before `bound`, if any does.
pub fn greatest_below(names: &Vec<Vec<u8>>, bound: Option<&Vec<u8>>) -> (place: Option<usize>)
    ensures
        match place {
            Some(p) => {
                &&& p < names@.len()
                &&& is_below(names@[p as int]@, bound_view(bound))
                &&& forall|j: int|
                    0 <= j < names@.len() && is_below(names@[j]@, bound_view(bound)) ==> !bytes_lt(
                        names@[p as int]@,
                        names@[j]@,
                    )
            },
            None => forall|j: int|
                0 <= j < names@.len() ==> !is_below(names@[j]@, bound_view(bound)),
        },
{
    let mut best: Option<usize> = None;
    let mut i: usize = 0;
    while i < names.len()
        invariant
            i <= names@.len(),
            match best {
                Some(p) => {
                    &&& p < i
                    &&& is_below(names@[p as int]@, bound_view(bound))
                    &&& forall|j: int|
                        0 <= j < i && is_below(names@[j]@, bound_view(bound)) ==> !bytes_lt(
                            names@[p as int]@,
                            names@[j]@,
                        )
                },
                None => forall|j: int| 0 <= j < i ==> !is_below(names@[j]@, bound_view(bound)),
            },
        decreases names@.len() - i,
    {
        let below = match bound {
            Some(b) => bytes_less(&names[i], b),
            None => true,
        };
        if below {
            match best {
                Some(p) => {
                    if bytes_less(&names[p], &names[i]) {
                        proof {
                            assert forall|j: int|
                                0 <= j < i + 1 && is_below(
                                    names@[j]@,
                                    bound_view(bound),
                                ) implies !bytes_lt(names@[i as int]@, names@[j]@) by {
                                if j < i && bytes_lt(names@[i as int]@, names@[j]@) {
                                    lemma_bytes_lt_transitive(
                                        names@[p as int]@,
                                        names@[i as int]@,
                                        names@[j]@,
                                    );
                                }
                                if j == i {
                                    lemma_bytes_lt_irreflexive(names@[i as int]@);
                                }
                            }
                        }
                        best = Some(i);
                    }
                },
                None => {
                    proof {
                        lemma_bytes_lt_irreflexive(names@[i as int]@);
                    }
                    best = Some(i);
                },
            }
        }
        i += 1;
    }
    best
}

/// The place of `name` among the names, if it is there.
pub fn find_name(names: &Vec<Vec<u8>>, name: &Vec<u8>) -> (place: Option<usize>)
    ensures
        match place {
            Some(p) => p < names@.len() && names@[p as int]@ == name@,
            None => !holds_name(names@, name@),
        },
{
    let mut i: usize = 0;
    while i < names.len()
        invariant
            i <= names@.len(),
            forall|j: int| 0 <= j < i ==> names@[j]@ != name@,
        decreases names@.len() - i,
    {
        if bytes_eq(&names[i], name) {
            return Some(i);
        }
        i += 1;
    }
    None
}

/// Whether `next` is the name that follows `current` among the names when
/// they are gone through in dictionary order, round and round: the first
/// after it, or the first of all when none comes after it.
pub open spec fn follows(names: Seq<Vec<u8>>, current: Seq<u8>, next: Seq<u8>) -> bool {
    &&& holds_name(names, next)
    &&& forall|j: int|
        0 <= j < names.len() && is_above(names[j]@, Some(current)) ==> is_above(
            next,
            Some(current),
        ) && !bytes_lt(names[j]@, next)
    &&& is_above(next, Some(current)) || forall|j: int|
        0 <= j < names.len() ==> !bytes_lt(names[j]@, next)
}

/// Whether `pre` is the name that comes before `current` among the names
/// when they are gone through in dictionary order, round and round: the
/// last before it, or the last of all when none comes before it.
pub open spec fn precedes(names: Seq<Vec<u8>>, current: Seq<u8>, pre: Seq<u8>) -> bool {
    &&& holds_name(names, pre)
    &&& forall|j: int|
        0 <= j < names.len() && is_below(names[j]@, Some(current)) ==> is_below(
            pre,
            Some(current),
        ) && !bytes_lt(pre, names[j]@)
    &&& is_below(pre, Some(current)) || forall|j: int|
        0 <= j < names.len() ==> !bytes_lt(pre, names[j]@)
}

/// The place of the file to open after `current`, among the names of the
/// files of its directory. There is none when `current` is not among them.
pub fn next_file(names: &Vec<Vec<u8>>, current: &Vec<u8>) -> (place: Option<usize>)
    ensures
        place is Some <==> holds_name(names@, current@),
        match place {
            Some(p) => p < names@.len() && follows(names@, current@, names@[p as int]@),
            None => true,
        },
{
    if find_name(names, current).is_none() {
        return None;
    }
    match least_above(names, Some(current)) {
        Some(p) => Some(p),
        None => {
            let first = least_above(names, None);
            proof {
                let k = choose|k: int| 0 <= k < names@.len() && names@[k]@ == current@;
                assert(is_above(names@[k]@, None));
            }
            first
        },
    }
}

/// The place of the file to open before `current`, among the names of the
/// files of its directory. There is none when `current` is not among them.
pub fn pre_file(names: &Vec<Vec<u8>>, current: &Vec<u8>) -> (place: Option<usize>)
    ensures
        place is Some <==> holds_name(names@, current@),
        match place {
            Some(p) => p < names@.len() && precedes(names@, current@, names@[p as int]@),
            None => true,
        },
{
    if find_name(names, current).is_none() {
        return None;
    }
    match greatest_below(names, Some(current)) {
        Some(p) => Some(p),
        None => {
            let last = greatest_below(names, None);
            proof {
                let k = choose|k: int| 0 <= k < names@.len() && names@[k]@ == current@;
                assert(is_below(names@[k]@, None));
            }
            last
        },
    }
}

} // verus!
