use vstd::prelude::*;

verus! {

/// Copies a byte slice into a fresh vector.
pub fn copy_bytes(s: &[u8]) -> (res: Vec<u8>)
    ensures
        res@ == s@,
{
    let mut res: Vec<u8> = Vec::new();
    let mut i: usize = 0;
    while i < s.len()
        invariant
            i <= s@.len(),
            res@ == s@.subrange(0, i as int),
        decreases s@.len() - i,
    {
        res.push(s[i]);
        i = i + 1;
    }
    res
}

/// The characters of `s`, in order.
pub fn chars_of(s: &str) -> (res: Vec<char>)
    ensures
        res@ == s@,
{
    broadcast use vstd::string::group_string_axioms;

    let mut res: Vec<char> = Vec::new();
    for c in it: s.chars()
        invariant
            res@ == it.seq().subrange(0, it.index() as int),
    {
        res.push(c);
    }
    res
}

/// Whether two texts are the same.
pub fn str_eq(a: &str, b: &str) -> (res: bool)
    ensures
        res == (a@ == b@),
{
    let x = chars_of(a);
    let y = chars_of(b);
    if x.len() != y.len() {
        return false;
    }
    let mut i: usize = 0;
    while i < x.len()
        invariant
            x@ == a@,
            y@ == b@,
            x@.len() == y@.len(),
            i <= x@.len(),
            forall|j: int| 0 <= j < i ==> x@[j] == y@[j],
        decreases x@.len() - i,
    {
        if x[i] != y[i] {
            assert(a@[i as int] != b@[i as int]);
            return false;
        }
        i = i + 1;
    }
    assert(x@ =~= y@);
    true
}

/// A set of 16-bit values seen as a set of integers.
spec fn as_ints(taken: Set<u16>) -> Set<int> {
    taken.map(|x: u16| x as int)
}

/// Seen as integers, a set of 16-bit values has as many members.
proof fn lemma_as_ints(taken: Set<u16>)
    requires
        taken.finite(),
    ensures
        as_ints(taken).len() == taken.len(),
        forall|x: u16| taken.contains(x) <==> #[trigger] as_ints(taken).contains(x as int),
{
    let f = |x: u16| x as int;
    assert(vstd::relations::injective_on(f, taken));
    vstd::set_lib::lemma_map_size(taken, taken.map(f), f);
    assert forall|x: u16| taken.contains(x) <==> #[trigger] taken.map(f).contains(x as int) by {
        if taken.contains(x) {
            assert(f(x) == x as int);
        }
    }
}

/// Counting 16-bit values: a finite set that holds none below `lo` has at
/// most `65536 - lo` members, and exactly that many when it holds every
/// value from `lo` up.
pub proof fn lemma_u16_range_count(taken: Set<u16>, lo: int)
    requires
        taken.finite(),
        0 <= lo <= 65536,
        forall|x: u16| taken.contains(x) ==> x >= lo,
    ensures
        taken.len() <= 65536 - lo,
        (forall|x: u16| x >= lo ==> taken.contains(x)) ==> taken.len() == 65536 - lo,
{
    let ints = as_ints(taken);
    lemma_as_ints(taken);
    let range = vstd::set_lib::set_int_range(lo, 65536);
    vstd::set_lib::lemma_int_range(lo, 65536);
    assert(ints.subset_of(range)) by {
        assert forall|i: int| ints.contains(i) implies range.contains(i) by {
            let x = choose|x: u16| taken.contains(x) && x as int == i;
            assert(taken.contains(x));
        }
    }
    vstd::set_lib::lemma_len_subset(ints, range);
    if forall|x: u16| x >= lo ==> taken.contains(x) {
        assert(range.subset_of(ints)) by {
            assert forall|i: int| range.contains(i) implies ints.contains(i) by {
                let x = i as u16;
                assert(taken.contains(x));
                assert(x as int == i);
            }
        }
        vstd::set_lib::lemma_len_subset(range, ints);
    }
}

} // verus!
