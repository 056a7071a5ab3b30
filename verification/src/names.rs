//! Lists of names in order, each name once.

use vstd::prelude::*;
use crate::text::{chars_of, string_from};

verus! {

/// Whether `a` comes before `b` where strings are put in order: at the first
/// place where the two differ `a` has the smaller character, or `a` ends
/// there and `b` goes on.
pub open spec fn comes_before(a: Seq<char>, b: Seq<char>) -> bool
    decreases a.len(),
{
    if b.len() == 0 {
        false
    } else if a.len() == 0 {
        true
    } else if a.first() != b.first() {
        a.first() < b.first()
    } else {
        comes_before(a.drop_first(), b.drop_first())
    }
}

/// Whether `sorted` holds the names of `names`, each once, in order.
pub open spec fn is_sorted_set_of(sorted: Seq<Seq<char>>, names: Seq<Seq<char>>) -> bool {
    &&& forall|i: int, j: int|
        0 <= i < j < sorted.len() ==> comes_before(#[trigger] sorted[i], #[trigger] sorted[j])
    &&& forall|i: int| 0 <= i < names.len() ==> sorted.contains(#[trigger] names[i])
    &&& forall|j: int| 0 <= j < sorted.len() ==> names.contains(#[trigger] sorted[j])
}

/// What a sequence of strings stands for.
pub open spec fn strings_view(names: Seq<String>) -> Seq<Seq<char>> {
    names.map_values(|s: String| s@)
}

/// What a sequence of names, each given by its characters, stands for.
pub open spec fn names_view(names: Seq<Vec<char>>) -> Seq<Seq<char>> {
    names.map_values(|n: Vec<char>| n@)
}

/// No name comes before itself.
pub proof fn lemma_never_before_itself(a: Seq<char>)
    ensures
        !comes_before(a, a),
    decreases a.len(),
{
    if a.len() > 0 {
        lemma_never_before_itself(a.drop_first());
    }
}

/// What comes before a name comes before every name after that one.
pub proof fn lemma_before_is_transitive(a: Seq<char>, b: Seq<char>, c: Seq<char>)
    requires
        comes_before(a, b),
        comes_before(b, c),
    ensures
        comes_before(a, c),
    decreases a.len(),
{
    if a.len() > 0 && a.first() == b.first() && b.first() == c.first() {
        lemma_before_is_transitive(a.drop_first(), b.drop_first(), c.drop_first());
    }
}

/// Where one name stands to another.
#[derive(Clone, Copy, Debug, PartialEq, Eq, Structural)]
pub enum Place {
    Before,
    Same,
    After,
}

/// Where `a` stands to `b`: before it, after it, or the same name.
pub fn place(a: &Vec<char>, b: &Vec<char>) -> (p: Place)
    ensures
        p == Place::Before <==> comes_before(a@, b@),
        p == Place::Same <==> a@ == b@,
        p == Place::After <==> comes_before(b@, a@),
{
    let mut i: usize = 0;
    assert(a@.skip(0) =~= a@ && b@.skip(0) =~= b@);
    while i < a.len() && i < b.len() && a[i] == b[i]
        invariant
            i <= a@.len(),
            i <= b@.len(),
            a@.take(i as int) == b@.take(i as int),
            comes_before(a@, b@) == comes_before(a@.skip(i as int), b@.skip(i as int)),
            comes_before(b@, a@) == comes_before(b@.skip(i as int), a@.skip(i as int)),
        decreases a@.len() - i,
    {
        assert(a@.skip(i as int).drop_first() =~= a@.skip(i + 1));
        assert(b@.skip(i as int).drop_first() =~= b@.skip(i + 1));
        assert(a@.take(i + 1) =~= a@.take(i as int).push(a@[i as int]));
        assert(b@.take(i + 1) =~= b@.take(i as int).push(b@[i as int]));
        i = i + 1;
    }
    let ghost ra = a@.skip(i as int);
    let ghost rb = b@.skip(i as int);
    assert(a@ =~= a@.take(i as int) + ra);
    assert(b@ =~= b@.take(i as int) + rb);
    if i == a.len() && i == b.len() {
        assert(ra =~= rb);
        proof {
            lemma_never_before_itself(ra);
        }
        Place::Same
    } else if i == a.len() {
        assert(a@ != b@) by {
            assert(a@.len() != b@.len());
        }
        Place::Before
    } else if i == b.len() {
        assert(a@ != b@) by {
            assert(a@.len() != b@.len());
        }
        Place::After
    } else {
        assert(ra.first() == a@[i as int] && rb.first() == b@[i as int]);
        assert(a@ != b@);
        if a[i] < b[i] {
            Place::Before
        } else {
            Place::After
        }
    }
}

/// An element of a sequence is an element of that sequence with one more
/// put in.
proof fn lemma_insert_keeps(s: Seq<Seq<char>>, at: int, x: Seq<char>, y: Seq<char>)
    requires
        0 <= at <= s.len(),
        s.contains(y),
    ensures
        s.insert(at, x).contains(y),
{
    let j = choose|j: int| 0 <= j < s.len() && s[j] == y;
    if j < at {
        assert(s.insert(at, x)[j] == y);
    } else {
        assert(s.insert(at, x)[j + 1] == y);
    }
}

/// Puts `name` in its place in `sorted`, unless it is there.
fn put_in_place(sorted: &mut Vec<Vec<char>>, name: Vec<char>)
    requires
        forall|i: int, j: int|
            0 <= i < j < old(sorted)@.len() ==> comes_before(
                #[trigger] old(sorted)@[i]@,
                #[trigger] old(sorted)@[j]@,
            ),
    ensures
        forall|i: int, j: int|
            0 <= i < j < final(sorted)@.len() ==> comes_before(
                #[trigger] final(sorted)@[i]@,
                #[trigger] final(sorted)@[j]@,
            ),
        names_view(final(sorted)@).contains(name@),
        forall|y: Seq<char>|
            names_view(old(sorted)@).contains(y) ==> names_view(final(sorted)@).contains(y),
        forall|y: Seq<char>|
            names_view(final(sorted)@).contains(y) ==> y == name@ || names_view(
                old(sorted)@,
            ).contains(y),
{
    let mut at: usize = 0;
    let mut found = false;
    while at < sorted.len()
        invariant_except_break
            !found,
        invariant
            at <= sorted@.len(),
            sorted@ == old(sorted)@,
            forall|i: int| 0 <= i < at ==> comes_before(#[trigger] sorted@[i]@, name@),
        ensures
            at <= sorted@.len(),
            sorted@ == old(sorted)@,
            forall|i: int| 0 <= i < at ==> comes_before(#[trigger] sorted@[i]@, name@),
            found ==> at < sorted@.len() && sorted@[at as int]@ == name@,
            !found && at < sorted@.len() ==> comes_before(name@, sorted@[at as int]@),
        decreases sorted@.len() - at,
    {
        match place(&sorted[at], &name) {
            Place::Before => {
                at = at + 1;
            },
            Place::Same => {
                found = true;
                break ;
            },
            Place::After => {
                break ;
            },
        }
    }
    let ghost before = names_view(sorted@);
    if found {
        assert(before[at as int] == name@);
        return ;
    }
    let ghost x = name@;
    sorted.insert(at, name);
    let ghost after = names_view(sorted@);
    assert(after =~= before.insert(at as int, x));
    assert(after[at as int] == x);
    assert forall|i: int, j: int| 0 <= i < j < sorted@.len() implies comes_before(
        #[trigger] sorted@[i]@,
        #[trigger] sorted@[j]@,
    ) by {
        let oi = if i < at { i } else { i - 1 };
        let oj = if j < at { j } else { j - 1 };
        if j == at {
            assert(comes_before(old(sorted)@[i]@, x));
        } else if i == at {
            if oj > at {
                assert(comes_before(old(sorted)@[at as int]@, old(sorted)@[oj]@));
                lemma_before_is_transitive(x, old(sorted)@[at as int]@, old(sorted)@[oj]@);
            }
        } else {
            assert(comes_before(old(sorted)@[oi]@, old(sorted)@[oj]@));
        }
    }
    assert forall|y: Seq<char>| before.contains(y) implies after.contains(y) by {
        lemma_insert_keeps(before, at as int, x, y);
    }
    assert forall|y: Seq<char>| after.contains(y) implies y == x || before.contains(y) by {
        let j = choose|j: int| 0 <= j < after.len() && after[j] == y;
        if j < at {
            assert(before[j] == y);
        } else if j > at {
            assert(before[j - 1] == y);
        }
    }
}

/// The names of `names` in order, each once.
pub fn sorted_names(names: &Vec<String>) -> (sorted: Vec<String>)
    ensures
        is_sorted_set_of(strings_view(sorted@), strings_view(names@)),
{
    let mut kept: Vec<Vec<char>> = Vec::new();
    let mut k: usize = 0;
    while k < names.len()
        invariant
            k <= names@.len(),
            forall|i: int, j: int|
                0 <= i < j < kept@.len() ==> comes_before(
                    #[trigger] kept@[i]@,
                    #[trigger] kept@[j]@,
                ),
            forall|i: int| 0 <= i < k ==> names_view(kept@).contains(#[trigger] names@[i]@),
            forall|y: Seq<char>|
                names_view(kept@).contains(y) ==> exists|i: int|
                    0 <= i < k && #[trigger] names@[i]@ == y,
        decreases names@.len() - k,
    {
        let ghost before = names_view(kept@);
        put_in_place(&mut kept, chars_of(names[k].as_str()));
        assert forall|y: Seq<char>| names_view(kept@).contains(y) implies exists|i: int|
            0 <= i < k + 1 && #[trigger] names@[i]@ == y by {
            if y == names@[k as int]@ {
            } else {
                assert(before.contains(y));
                let i = choose|i: int| 0 <= i < k && #[trigger] names@[i]@ == y;
                assert(names@[i]@ == y);
            }
        }
        k = k + 1;
    }
    let mut sorted: Vec<String> = Vec::new();
    let mut j: usize = 0;
    while j < kept.len()
        invariant
            j <= kept@.len(),
            sorted@.len() == j,
            forall|i: int| 0 <= i < j ==> (#[trigger] sorted@[i])@ == kept@[i]@,
        decreases kept@.len() - j,
    {
        sorted.push(string_from(&kept[j]));
        j = j + 1;
    }
    assert(strings_view(sorted@) =~= names_view(kept@));
    assert forall|i: int| 0 <= i < names@.len() implies strings_view(sorted@).contains(
        #[trigger] strings_view(names@)[i],
    ) by {
        assert(names_view(kept@).contains(names@[i]@));
    }
    assert forall|j: int| 0 <= j < sorted@.len() implies strings_view(names@).contains(
        #[trigger] strings_view(sorted@)[j],
    ) by {
        let y = strings_view(sorted@)[j];
        assert(names_view(kept@)[j] == y);
        assert(names_view(kept@).contains(y));
        let i = choose|i: int| 0 <= i < names@.len() && #[trigger] names@[i]@ == y;
        assert(strings_view(names@)[i] == y);
    }
    sorted
}

} // verus!
