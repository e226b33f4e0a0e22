//! The order of strings, and lists of names in that order.

use vstd::prelude::*;

use crate::text::{chars_of, same, views};

verus! {

/// Whether `a` comes before `b`: the first character in which they differ is smaller in
/// `a`, or `a` ends first.
pub open spec fn precedes(a: Seq<char>, b: Seq<char>) -> bool
    decreases a.len(),
{
    if b.len() == 0 {
        false
    } else if a.len() == 0 {
        true
    } else if a[0] == b[0] {
        precedes(a.subrange(1, a.len() as int), b.subrange(1, b.len() as int))
    } else {
        a[0] < b[0]
    }
}

/// The order has no cycles: nothing comes before itself.
pub proof fn precedes_is_irreflexive(a: Seq<char>)
    ensures
        !precedes(a, a),
    decreases a.len(),
{
    if a.len() > 0 {
        precedes_is_irreflexive(a.subrange(1, a.len() as int));
    }
}

/// The order is transitive.
pub proof fn precedes_is_transitive(a: Seq<char>, b: Seq<char>, c: Seq<char>)
    requires
        precedes(a, b),
        precedes(b, c),
    ensures
        precedes(a, c),
    decreases a.len(),
{
    if a.len() > 0 && b.len() > 0 && c.len() > 0 && a[0] == b[0] && b[0] == c[0] {
        precedes_is_transitive(
            a.subrange(1, a.len() as int),
            b.subrange(1, b.len() as int),
            c.subrange(1, c.len() as int),
        );
    }
}

/// The order is total: of two different strings one comes first.
pub proof fn precedes_is_total(a: Seq<char>, b: Seq<char>)
    ensures
        a == b || precedes(a, b) || precedes(b, a),
    decreases a.len(),
{
    if a.len() > 0 && b.len() > 0 && a[0] == b[0] {
        let x = a.subrange(1, a.len() as int);
        let y = b.subrange(1, b.len() as int);
        precedes_is_total(x, y);
        if x == y {
            assert(a =~= seq![a[0]] + x);
            assert(b =~= seq![b[0]] + y);
        }
    } else if a.len() == 0 && b.len() == 0 {
        assert(a =~= b);
    }
}

/// Whether `a` comes before `b`.
pub fn text_precedes(a: &str, b: &str) -> (r: bool)
    ensures
        r == precedes(a@, b@),
{
    let x = chars_of(a);
    let y = chars_of(b);
    let mut i: usize = 0;
    assert(x@.subrange(0, x@.len() as int) =~= x@);
    assert(y@.subrange(0, y@.len() as int) =~= y@);
    while i < x.len() && i < y.len()
        invariant
            i <= x@.len(),
            i <= y@.len(),
            precedes(a@, b@) == precedes(
                x@.subrange(i as int, x@.len() as int),
                y@.subrange(i as int, y@.len() as int),
            ),
        decreases x@.len() - i,
    {
        let ghost p = x@.subrange(i as int, x@.len() as int);
        let ghost q = y@.subrange(i as int, y@.len() as int);
        assert(p[0] == x@[i as int] && q[0] == y@[i as int]);
        assert(p.subrange(1, p.len() as int) =~= x@.subrange(i + 1, x@.len() as int));
        assert(q.subrange(1, q.len() as int) =~= y@.subrange(i + 1, y@.len() as int));
        if x[i] != y[i] {
            return x[i] < y[i];
        }
        i = i + 1;
    }
    i < y.len()
}

/// Whether every element comes before the later ones: in order, and none twice.
pub open spec fn ascending(s: Seq<Seq<char>>) -> bool {
    forall|i: int, j: int| 0 <= i < j < s.len() ==> precedes(#[trigger] s[i], #[trigger] s[j])
}

/// Whether two lists hold the same names.
pub open spec fn same_set(a: Seq<Seq<char>>, b: Seq<Seq<char>>) -> bool {
    &&& forall|x: Seq<char>| #[trigger] a.contains(x) ==> b.contains(x)
    &&& forall|x: Seq<char>| #[trigger] b.contains(x) ==> a.contains(x)
}

/// A list in ascending order with one more name put in its place.
fn insert_name(list: &mut Vec<String>, name: &String)
    requires
        ascending(views(old(list)@)),
    ensures
        ascending(views(final(list)@)),
        forall|x: Seq<char>| #[trigger]
            views(final(list)@).contains(x) <==> views(old(list)@).contains(x) || x == name@,
{
    let ghost before = views(list@);
    let mut i: usize = 0;
    while i < list.len() && text_precedes(&list[i], name)
        invariant
            i <= list@.len(),
            views(list@) == before,
            forall|j: int| 0 <= j < i ==> precedes(#[trigger] before[j], name@),
        decreases list@.len() - i,
    {
        assert(before[i as int] == list@[i as int]@);
        i = i + 1;
    }
    if i < list.len() && same(&list[i], name) {
        assert(before[i as int] == name@);
        assert(before.contains(name@));
        return;
    }
    list.insert(i, name.clone());
    let ghost after = views(list@);
    assert(after =~= before.insert(i as int, name@));
    proof {
        assert forall|j: int| i <= j < before.len() implies precedes(name@, #[trigger] before[j]) by {
            precedes_is_total(name@, before[i as int]);
            if j > i {
                precedes_is_transitive(name@, before[i as int], before[j]);
            }
        }
        assert(ascending(after)) by {
            assert forall|a: int, b: int| 0 <= a < b < after.len() implies precedes(
                #[trigger] after[a],
                #[trigger] after[b],
            ) by {
                if a < i && b > i {
                    assert(after[a] == before[a] && after[b] == before[b - 1]);
                } else if a == i {
                    assert(after[b] == before[b - 1]);
                } else if b == i {
                    assert(after[a] == before[a]);
                } else if b < i {
                    assert(after[a] == before[a] && after[b] == before[b]);
                } else {
                    assert(after[a] == before[a - 1] && after[b] == before[b - 1]);
                }
            }
        }
        assert forall|x: Seq<char>| #[trigger] after.contains(x) <==> before.contains(x) || x
            == name@ by {
            if before.contains(x) {
                let k = choose|k: int| 0 <= k < before.len() && before[k] == x;
                if k < i {
                    assert(after[k] == x);
                } else {
                    assert(after[k + 1] == x);
                }
            }
            if x == name@ {
                assert(after[i as int] == x);
            }
            if after.contains(x) {
                let k = choose|k: int| 0 <= k < after.len() && after[k] == x;
                if k < i {
                    assert(before[k] == x);
                } else if k > i {
                    assert(before[k - 1] == x);
                }
            }
        }
    }
}

/// The names of a list in ascending order, each once.
pub fn sorted_names(names: &Vec<String>) -> (r: Vec<String>)
    ensures
        ascending(views(r@)),
        same_set(views(r@), views(names@)),
{
    let mut r: Vec<String> = Vec::new();
    let mut i: usize = 0;
    let ghost all = views(names@);
    assert(views(r@) =~= Seq::empty());
    while i < names.len()
        invariant
            i <= names@.len(),
            all == views(names@),
            ascending(views(r@)),
            same_set(views(r@), all.take(i as int)),
        decreases names@.len() - i,
    {
        let ghost before = views(r@);
        insert_name(&mut r, &names[i]);
        proof {
            assert(all.take(i + 1) =~= all.take(i as int).push(names@[i as int]@));
            assert forall|x: Seq<char>| #[trigger] views(r@).contains(x) implies all.take(
                i + 1,
            ).contains(x) by {
                if before.contains(x) {
                    let k = choose|k: int|
                        0 <= k < all.take(i as int).len() && all.take(i as int)[k] == x;
                    assert(all.take(i + 1)[k] == x);
                } else {
                    assert(all.take(i + 1)[i as int] == x);
                }
            }
            assert forall|x: Seq<char>| #[trigger] all.take(i + 1).contains(x) implies views(
                r@,
            ).contains(x) by {
                let upto = all.take(i + 1);
                let k = choose|k: int| 0 <= k < upto.len() && upto[k] == x;
                if k < i {
                    assert(all.take(i as int)[k] == x);
                    assert(all.take(i as int).contains(x));
                }
            }
        }
        i = i + 1;
    }
    assert(all.take(all.len() as int) =~= all);
    r
}

/// An ascending list is settled by the names it holds: two of them with the same names
/// are the same list.
pub proof fn ascending_lists_are_unique(a: Seq<Seq<char>>, b: Seq<Seq<char>>)
    requires
        ascending(a),
        ascending(b),
        same_set(a, b),
    ensures
        a == b,
    decreases a.len(),
{
    if a.len() == 0 {
        if b.len() > 0 {
            assert(b.contains(b[0]));
        }
        assert(a =~= b);
    } else {
        assert(a.contains(a[0]));
        assert(b.len() > 0);
        let x = a.last();
        let y = b.last();
        assert(a[a.len() - 1] == x && b[b.len() - 1] == y);
        assert(a.contains(x) && b.contains(y));
        assert(b.contains(x) && a.contains(y));
        let i = choose|i: int| 0 <= i < b.len() && b[i] == x;
        let j = choose|j: int| 0 <= j < a.len() && a[j] == y;
        if x != y {
            assert(precedes(b[i], b[b.len() - 1]));
            assert(precedes(a[j], a[a.len() - 1]));
            precedes_is_transitive(x, y, x);
            precedes_is_irreflexive(x);
        }
        let p = a.drop_last();
        let q = b.drop_last();
        assert(ascending(p)) by {
            assert forall|i: int, j: int| 0 <= i < j < p.len() implies precedes(
                #[trigger] p[i],
                #[trigger] p[j],
            ) by {
                assert(precedes(a[i], a[j]));
            }
        }
        assert(ascending(q)) by {
            assert forall|i: int, j: int| 0 <= i < j < q.len() implies precedes(
                #[trigger] q[i],
                #[trigger] q[j],
            ) by {
                assert(precedes(b[i], b[j]));
            }
        }
        assert forall|z: Seq<char>| #[trigger] p.contains(z) implies q.contains(z) by {
            let k = choose|k: int| 0 <= k < p.len() && p[k] == z;
            assert(a[k] == z);
            assert(a.contains(z));
            assert(precedes(a[k], a[a.len() - 1]));
            precedes_is_irreflexive(z);
            let m = choose|m: int| 0 <= m < b.len() && b[m] == z;
            assert(m < q.len());
            assert(q[m] == z);
        }
        assert forall|z: Seq<char>| #[trigger] q.contains(z) implies p.contains(z) by {
            let k = choose|k: int| 0 <= k < q.len() && q[k] == z;
            assert(b[k] == z);
            assert(b.contains(z));
            assert(precedes(b[k], b[b.len() - 1]));
            precedes_is_irreflexive(z);
            let m = choose|m: int| 0 <= m < a.len() && a[m] == z;
            assert(m < p.len());
            assert(p[m] == z);
        }
        ascending_lists_are_unique(p, q);
        assert(a =~= p.push(x));
        assert(b =~= q.push(y));
    }
}


/// The names of a list in ascending order, each once.
pub open spec fn in_order(names: Seq<Seq<char>>) -> Seq<Seq<char>> {
    choose|n: Seq<Seq<char>>| ascending(n) && same_set(n, names)
}

/// The names of a list in ascending order, each once.
pub fn names_in_order(names: &Vec<String>) -> (r: Vec<String>)
    ensures
        views(r@) == in_order(views(names@)),
        ascending(views(r@)),
        same_set(views(r@), views(names@)),
{
    let r = sorted_names(names);
    proof {
        let a = views(r@);
        let all = views(names@);
        assert(ascending(a) && same_set(a, all));
        let b = in_order(all);
        assert(ascending(b) && same_set(b, all));
        assert forall|x: Seq<char>| #[trigger] a.contains(x) implies b.contains(x) by {
            assert(all.contains(x));
        }
        assert forall|x: Seq<char>| #[trigger] b.contains(x) implies a.contains(x) by {
            assert(all.contains(x));
        }
        ascending_lists_are_unique(a, b);
    }
    r
}

/// A name can be put into an ascending list that does not have it.
proof fn lemma_put_in_order(n: Seq<Seq<char>>, x: Seq<char>) -> (m: Seq<Seq<char>>)
    requires
        ascending(n),
        !n.contains(x),
    ensures
        ascending(m),
        forall|y: Seq<char>| #[trigger] m.contains(y) <==> (y == x || n.contains(y)),
    decreases n.len(),
{
    if n.len() == 0 {
        let m = seq![x];
        assert(m[0] == x);
        m
    } else {
        let last = n.last();
        let rest = n.drop_last();
        assert(n[n.len() - 1] == last);
        assert(n.contains(last));
        precedes_is_total(last, x);
        if precedes(last, x) {
            let m = n.push(x);
            assert forall|i: int, j: int| 0 <= i < j < m.len() implies precedes(
                #[trigger] m[i],
                #[trigger] m[j],
            ) by {
                if j == n.len() && i < n.len() - 1 {
                    precedes_is_transitive(n[i], n[n.len() - 1], x);
                }
            }
            assert forall|y: Seq<char>| #[trigger] m.contains(y) <==> (y == x || n.contains(y)) by {
                if n.contains(y) {
                    let i = choose|i: int| 0 <= i < n.len() && n[i] == y;
                    assert(m[i] == y);
                }
                assert(m[m.len() - 1] == x);
            }
            m
        } else {
            assert forall|y: Seq<char>| #[trigger] rest.contains(y) implies n.contains(y) by {
                let i = choose|i: int| 0 <= i < rest.len() && rest[i] == y;
                assert(n[i] == y);
            }
            let part = lemma_put_in_order(rest, x);
            let m = part.push(last);
            assert forall|i: int, j: int| 0 <= i < j < m.len() implies precedes(
                #[trigger] m[i],
                #[trigger] m[j],
            ) by {
                if j == part.len() {
                    assert(part.contains(part[i]));
                    if part[i] != x {
                        let k = choose|k: int| 0 <= k < rest.len() && rest[k] == part[i];
                        assert(precedes(n[k], n[n.len() - 1]));
                    }
                }
            }
            assert forall|y: Seq<char>| #[trigger] m.contains(y) <==> (y == x || n.contains(y)) by {
                if m.contains(y) {
                    let i = choose|i: int| 0 <= i < m.len() && m[i] == y;
                    if i < part.len() {
                        assert(part.contains(y));
                    }
                }
                if part.contains(y) {
                    let i = choose|i: int| 0 <= i < part.len() && part[i] == y;
                    assert(m[i] == y);
                }
                if n.contains(y) {
                    let i = choose|i: int| 0 <= i < n.len() && n[i] == y;
                    if i < rest.len() {
                        assert(rest[i] == y);
                        assert(rest.contains(y));
                    }
                }
                assert(part.contains(x));
                assert(m[m.len() - 1] == last);
            }
            m
        }
    }
}

/// Every list of names has an ascending list of the same names.
proof fn lemma_order_exists(names: Seq<Seq<char>>) -> (n: Seq<Seq<char>>)
    ensures
        ascending(n),
        same_set(n, names),
    decreases names.len(),
{
    if names.len() == 0 {
        let n = Seq::<Seq<char>>::empty();
        n
    } else {
        let rest = names.drop_last();
        let x = names.last();
        let part = lemma_order_exists(rest);
        let n = if part.contains(x) {
            part
        } else {
            lemma_put_in_order(part, x)
        };
        assert forall|y: Seq<char>| #[trigger] n.contains(y) <==> names.contains(y) by {
            assert(part.contains(y) <==> rest.contains(y));
            if rest.contains(y) {
                let i = choose|i: int| 0 <= i < rest.len() && rest[i] == y;
                assert(names[i] == y);
            }
            if names.contains(y) {
                let i = choose|i: int| 0 <= i < names.len() && names[i] == y;
                if i < rest.len() {
                    assert(rest[i] == y);
                }
            }
            assert(names[names.len() - 1] == x);
        }
        n
    }
}

/// The ordered list of names is ascending and has the names of the list, no others.
pub proof fn ordered_names_are_the_same(names: Seq<Seq<char>>)
    ensures
        ascending(in_order(names)),
        same_set(in_order(names), names),
{
    let n = lemma_order_exists(names);
    assert(ascending(n) && same_set(n, names));
}

} // verus!
