//! Libraries (buckets) of a user: the order in which they are listed, and the
//! sample media shown for each.
use vstd::prelude::*;
use crate::common::current_time_millis;
use crate::database::somes;
use rand::Rng;
use vstd::multiset::Multiset;

verus! {

/// A library as listed to a user: its id, name, number of media and up to four
/// sample media ids (`0` where there is none).
pub struct LibraryEntry {
    pub id: u64,
    pub name: String,
    pub count: u64,
    pub samples: (u64, u64, u64, u64),
}

impl LibraryEntry {
    /// A copy of the entry.
    pub fn duplicate(&self) -> (r: LibraryEntry)
        ensures
            r == *self,
    {
        LibraryEntry { id: self.id, name: self.name.clone(), count: self.count, samples: self.samples }
    }
}

/// The entries of `s` named `name`, last first.
pub open spec fn matches_reversed(s: Seq<LibraryEntry>, name: Seq<char>) -> Seq<LibraryEntry>
    decreases s.len(),
{
    if s.len() == 0 {
        Seq::empty()
    } else if s.last().name@ == name {
        seq![s.last()] + matches_reversed(s.drop_last(), name)
    } else {
        matches_reversed(s.drop_last(), name)
    }
}

/// Puts every entry of `list2` named `name` at the front of `list`, each in turn,
/// so that they end up before the old entries, last one first.
pub fn join_lists(list: &mut Vec<LibraryEntry>, list2: &Vec<LibraryEntry>, name: &str)
    ensures
        final(list)@ == matches_reversed(list2@, name@) + old(list)@,
{
    let n: String = name.to_owned();
    let ghost start = list@;
    let mut i: usize = 0;
    assert(list2@.take(0) =~= Seq::<LibraryEntry>::empty());
    while i < list2.len()
        invariant
            i <= list2@.len(),
            n@ == name@,
            list@ == matches_reversed(list2@.take(i as int), name@) + start,
        decreases list2.len() - i,
    {
        assert(list2@.take(i + 1).drop_last() =~= list2@.take(i as int));
        if n == list2[i].name {
            let e = list2[i].duplicate();
            list.insert(0, e);
            assert(list@ =~= seq![list2@[i as int]] + (matches_reversed(list2@.take(i as int), name@) + start));
        }
        i = i + 1;
    }
    assert(list2@.take(list2@.len() as int) =~= list2@);
}

/// The library names that are listed first, in the order in which they are joined
/// to the front (so the last of them is listed first).
pub open spec fn special_names() -> Seq<Seq<char>> {
    seq![
        "PhotoDirector"@,
        "Instagram"@,
        "Messenger"@,
        "OneDrive"@,
        "Google Fotos"@,
        "WhatsApp Images"@,
        "Camera"@,
        "Kamera"@,
    ]
}

/// `name` is one of the libraries that are listed first.
pub open spec fn is_special(name: Seq<char>) -> bool {
    name == "PhotoDirector"@ || name == "Instagram"@ || name == "Messenger"@ || name == "OneDrive"@
        || name == "Google Fotos"@ || name == "WhatsApp Images"@ || name == "Camera"@ || name == "Kamera"@
}

/// The entries with (`special`) or without (`!special`) a special name, in order.
pub open spec fn partition(s: Seq<LibraryEntry>, special: bool) -> Seq<LibraryEntry>
    decreases s.len(),
{
    if s.len() == 0 {
        Seq::empty()
    } else if is_special(s.last().name@) == special {
        partition(s.drop_last(), special).push(s.last())
    } else {
        partition(s.drop_last(), special)
    }
}

/// `base` after joining the entries of `list2` for each of `names` in turn.
pub open spec fn joined(base: Seq<LibraryEntry>, list2: Seq<LibraryEntry>, names: Seq<Seq<char>>) -> Seq<LibraryEntry>
    decreases names.len(),
{
    if names.len() == 0 {
        base
    } else {
        matches_reversed(list2, names.last()) + joined(base, list2, names.drop_last())
    }
}

/// The order in which libraries are listed: the special ones first (Kamera,
/// Camera, WhatsApp Images, Google Fotos, OneDrive, Messenger, Instagram,
/// PhotoDirector; several of one name last first), then the others in order.
pub open spec fn display_order(s: Seq<LibraryEntry>) -> Seq<LibraryEntry> {
    joined(partition(s, false), partition(s, true), special_names())
}

proof fn step_joined(b: Seq<LibraryEntry>, l2: Seq<LibraryEntry>, k: int)
    requires
        0 <= k < 8,
    ensures
        joined(b, l2, special_names().take(k + 1)) == matches_reversed(l2, special_names()[k])
            + joined(b, l2, special_names().take(k)),
{
    assert(special_names().take(k + 1).drop_last() =~= special_names().take(k));
}

fn name_is_special(name: &String) -> (b: bool)
    ensures
        b == is_special(name@),
{
    *name == "PhotoDirector".to_owned() || *name == "Instagram".to_owned()
        || *name == "Messenger".to_owned() || *name == "OneDrive".to_owned()
        || *name == "Google Fotos".to_owned() || *name == "WhatsApp Images".to_owned()
        || *name == "Camera".to_owned() || *name == "Kamera".to_owned()
}

/// The libraries in the order in which they are listed; `Err(-5)` when the samples
/// or the count of some library could not be read (`None`).
pub fn get_libs(entries: Vec<Option<LibraryEntry>>) -> (r: Result<Vec<LibraryEntry>, i8>)
    ensures
        match r {
            Ok(v) => (forall|i: int| 0 <= i < entries@.len() ==> entries@[i] is Some)
                && v@ == display_order(somes(entries@)),
            Err(e) => e == -5 && exists|i: int| 0 <= i < entries@.len() && entries@[i] is None,
        },
{
    let mut list: Vec<LibraryEntry> = Vec::new();
    let mut list2: Vec<LibraryEntry> = Vec::new();
    let mut i: usize = 0;
    assert(entries@.take(0) =~= Seq::<Option<LibraryEntry>>::empty());
    while i < entries.len()
        invariant
            i <= entries@.len(),
            forall|j: int| 0 <= j < i ==> entries@[j] is Some,
            list@ == partition(somes(entries@.take(i as int)), false),
            list2@ == partition(somes(entries@.take(i as int)), true),
        decreases entries.len() - i,
    {
        let ghost prev = entries@.take(i as int);
        assert(entries@.take(i + 1).drop_last() =~= prev);
        match &entries[i] {
            Some(e) => {
                proof {
                    assert(somes(entries@.take(i + 1)) == somes(prev).push(*e));
                    assert(somes(entries@.take(i + 1)).drop_last() =~= somes(prev));
                }
                if name_is_special(&e.name) {
                    list2.push(e.duplicate());
                } else {
                    list.push(e.duplicate());
                }
            },
            None => {
                return Err(-5);
            },
        }
        i = i + 1;
    }
    assert(entries@.take(entries@.len() as int) =~= entries@);
    let ghost b = list@;
    let ghost l2 = list2@;
    let ghost names = special_names();
    proof {
        assert(names.take(0) =~= Seq::<Seq<char>>::empty());
    }
    join_lists(&mut list, &list2, "PhotoDirector");
    proof { step_joined(b, l2, 0); }
    join_lists(&mut list, &list2, "Instagram");
    proof { step_joined(b, l2, 1); }
    join_lists(&mut list, &list2, "Messenger");
    proof { step_joined(b, l2, 2); }
    join_lists(&mut list, &list2, "OneDrive");
    proof { step_joined(b, l2, 3); }
    join_lists(&mut list, &list2, "Google Fotos");
    proof { step_joined(b, l2, 4); }
    join_lists(&mut list, &list2, "WhatsApp Images");
    proof { step_joined(b, l2, 5); }
    join_lists(&mut list, &list2, "Camera");
    proof { step_joined(b, l2, 6); }
    join_lists(&mut list, &list2, "Kamera");
    proof {
        step_joined(b, l2, 7);
        assert(names.take(8) =~= names);
    }
    Ok(list)
}

/// The random and time-dependent choices made when picking sample media: whether
/// the clock read even (five media), the window offset (six or seven media), and
/// one index per quarter of the list (eight or more media).
pub struct SampleChoice {
    pub even_time: bool,
    pub offset: usize,
    pub picks: (usize, usize, usize, usize),
}

/// The choices that can occur for a list of `n` media.
pub open spec fn valid_choice(n: nat, c: SampleChoice) -> bool {
    &&& n == 6 ==> c.offset < 3
    &&& n == 7 ==> c.offset < 4
    &&& n >= 8 ==> {
        &&& c.picks.0 < n / 4 - 1
        &&& n / 4 <= c.picks.1 < n / 2 - 1
        &&& n / 2 <= c.picks.2 < 3 * n / 4 - 1
        &&& 3 * n / 4 <= c.picks.3 < n - 1
    }
}

/// The samples picked from the media ids `ids` under choice `c`: all of them (padded
/// with `0`) when there are at most four; the first three and the fourth or fifth by
/// the clock for five; a window of four for six or seven; one from each quarter
/// otherwise. `Err(-5)` when there are none.
pub open spec fn samples_of(ids: Seq<u64>, c: SampleChoice) -> Result<(u64, u64, u64, u64), i8> {
    let n = ids.len();
    if n == 0 {
        Err(-5i8)
    } else if n == 1 {
        Ok((ids[0], 0u64, 0u64, 0u64))
    } else if n == 2 {
        Ok((ids[0], ids[1], 0u64, 0u64))
    } else if n == 3 {
        Ok((ids[0], ids[1], ids[2], 0u64))
    } else if n == 4 {
        Ok((ids[0], ids[1], ids[2], ids[3]))
    } else if n == 5 {
        Ok((ids[0], ids[1], ids[2], if c.even_time { ids[3] } else { ids[4] }))
    } else if n == 6 || n == 7 {
        let o = c.offset as int;
        Ok((ids[o], ids[o + 1], ids[o + 2], ids[o + 3]))
    } else {
        Ok((ids[c.picks.0 as int], ids[c.picks.1 as int], ids[c.picks.2 as int], ids[c.picks.3 as int]))
    }
}

/// The samples picked from `ids` under the given choice.
pub fn select_samples(ids: &Vec<u64>, c: &SampleChoice) -> (r: Result<(u64, u64, u64, u64), i8>)
    requires
        valid_choice(ids@.len(), *c),
    ensures
        r == samples_of(ids@, *c),
{
    let n = ids.len();
    if n == 0 {
        Err(-5)
    } else if n == 1 {
        Ok((ids[0], 0u64, 0u64, 0u64))
    } else if n == 2 {
        Ok((ids[0], ids[1], 0u64, 0u64))
    } else if n == 3 {
        Ok((ids[0], ids[1], ids[2], 0u64))
    } else if n == 4 {
        Ok((ids[0], ids[1], ids[2], ids[3]))
    } else if n == 5 {
        Ok((ids[0], ids[1], ids[2], if c.even_time { ids[3] } else { ids[4] }))
    } else if n == 6 || n == 7 {
        let o = c.offset;
        Ok((ids[o], ids[o + 1], ids[o + 2], ids[o + 3]))
    } else {
        proof {
            assert(3 * n / 4 <= n) by (nonlinear_arith)
                requires n >= 8;
        }
        Ok((ids[c.picks.0], ids[c.picks.1], ids[c.picks.2], ids[c.picks.3]))
    }
}

/// `rand::thread_rng().gen_range(low, high)`: a random number with
/// `low <= r < high`. The crate documents and asserts that `low < high`; which
/// number comes out is chance.
#[verifier::external_body]
fn random_in(low: usize, high: usize) -> (r: usize)
    requires
        low < high,
    ensures
        low <= r < high,
{
    rand::thread_rng().gen_range(low, high)
}

/// `3 * n / 4`, computed without overflow.
fn three_quarters(n: usize) -> (r: usize)
    ensures
        r == 3 * n / 4,
{
    let q = n / 4;
    let rem = n % 4;
    proof {
        assert(3 * n / 4 == q * 3 + rem * 3 / 4) by (nonlinear_arith)
            requires q == n / 4, rem == n % 4;
        assert(q * 3 <= n) by (nonlinear_arith)
            requires q == n / 4;
    }
    q * 3 + rem * 3 / 4
}

/// The sample media of a library, from the rows of the id lookup (`None` for a row
/// that could not be read): picked from the readable ids, with the clock deciding
/// for five media and chance for six or more.
pub fn samples_from_rows(rows: Vec<Option<u64>>) -> (r: Result<(u64, u64, u64, u64), i8>)
    ensures
        exists|c: SampleChoice| valid_choice(somes(rows@).len(), c) && r == samples_of(somes(rows@), c),
{
    let ids = crate::database::readable_rows(rows);
    let n = ids.len();
    let mut c = SampleChoice { even_time: true, offset: 0, picks: (0, 0, 0, 0) };
    if n == 5 {
        c.even_time = current_time_millis() % 2 == 0;
    } else if n == 6 {
        c.offset = random_in(0, 3);
    } else if n == 7 {
        c.offset = random_in(0, 4);
    } else if n >= 8 {
        let q = n / 4;
        let h = n / 2;
        let t = three_quarters(n);
        proof {
            assert(q - 1 > 0 && h - 1 > q && t - 1 > h && n - 1 > t) by (nonlinear_arith)
                requires n >= 8, q == n / 4, h == n / 2, t == 3 * n / 4;
        }
        let p0 = random_in(0, q - 1);
        let p1 = random_in(q, h - 1);
        let p2 = random_in(h, t - 1);
        let p3 = random_in(t, n - 1);
        c.picks = (p0, p1, p2, p3);
    }
    let r = select_samples(&ids, &c);
    assert(valid_choice(somes(rows@).len(), c) && r == samples_of(somes(rows@), c));
    r
}

} // verus!

verus! {

/// The entries of `l2` joined for each of `names`, counted together.
pub open spec fn matches_all(l2: Seq<LibraryEntry>, names: Seq<Seq<char>>) -> Multiset<LibraryEntry>
    decreases names.len(),
{
    if names.len() == 0 {
        Multiset::empty()
    } else {
        matches_reversed(l2, names.last()).to_multiset().add(matches_all(l2, names.drop_last()))
    }
}

proof fn lemma_joined_multiset(base: Seq<LibraryEntry>, l2: Seq<LibraryEntry>, names: Seq<Seq<char>>)
    ensures
        joined(base, l2, names).to_multiset() =~= base.to_multiset().add(matches_all(l2, names)),
    decreases names.len(),
{
    broadcast use vstd::seq_lib::lemma_multiset_commutative;
    broadcast use vstd::multiset::group_multiset_axioms;
    if names.len() > 0 {
        lemma_joined_multiset(base, l2, names.drop_last());
    }
}

proof fn lemma_partition_multiset(s: Seq<LibraryEntry>)
    ensures
        partition(s, false).to_multiset().add(partition(s, true).to_multiset()) =~= s.to_multiset(),
    decreases s.len(),
{
    broadcast use vstd::seq_lib::group_to_multiset_ensures;
    broadcast use vstd::multiset::group_multiset_axioms;
    if s.len() > 0 {
        let t = s.drop_last();
        lemma_partition_multiset(t);
        assert(t.push(s.last()) == s);
    } else {
        assert(s.to_multiset() =~= Multiset::empty());
        assert(partition(s, false).to_multiset() =~= Multiset::empty());
        assert(partition(s, true).to_multiset() =~= Multiset::empty());
    }
}

proof fn lemma_matches_all_push(l2: Seq<LibraryEntry>, x: LibraryEntry, names: Seq<Seq<char>>)
    requires
        names.no_duplicates(),
    ensures
        names.contains(x.name@) ==> matches_all(l2.push(x), names) =~= matches_all(l2, names).insert(x),
        !names.contains(x.name@) ==> matches_all(l2.push(x), names) =~= matches_all(l2, names),
    decreases names.len(),
{
    broadcast use vstd::seq_lib::lemma_multiset_commutative;
    broadcast use vstd::multiset::group_multiset_axioms;
    broadcast use vstd::seq_lib::group_to_multiset_ensures;
    if names.len() > 0 {
        let init = names.drop_last();
        assert(init.no_duplicates()) by {
            assert forall|i: int, j: int| 0 <= i < init.len() && 0 <= j < init.len() && i != j
                implies init[i] != init[j] by {
                assert(init[i] == names[i] && init[j] == names[j]);
            }
        }
        lemma_matches_all_push(l2, x, init);
        assert(l2.push(x).drop_last() == l2);
        let n = names.last();
        if x.name@ == n {
            assert(matches_reversed(l2.push(x), n) == seq![x] + matches_reversed(l2, n));
            assert(!init.contains(x.name@)) by {
                if init.contains(x.name@) {
                    let k = choose|k: int| 0 <= k < init.len() && init[k] == x.name@;
                    assert(names[k] == names[names.len() - 1]);
                }
            }
            assert(seq![x].to_multiset() =~= Multiset::empty().insert(x)) by {
                assert(Seq::<LibraryEntry>::empty().push(x) == seq![x]);
                assert(Seq::<LibraryEntry>::empty().to_multiset() =~= Multiset::empty());
            }
        } else {
            assert(matches_reversed(l2.push(x), n) == matches_reversed(l2, n));
            assert(names.contains(x.name@) <==> init.contains(x.name@)) by {
                if names.contains(x.name@) {
                    let k = choose|k: int| 0 <= k < names.len() && names[k] == x.name@;
                    assert(k < init.len());
                    assert(init[k] == names[k]);
                }
                if init.contains(x.name@) {
                    let k = choose|k: int| 0 <= k < init.len() && init[k] == x.name@;
                    assert(names[k] == init[k]);
                }
            }
        }
    }
}

proof fn lemma_matches_all_full(l2: Seq<LibraryEntry>, names: Seq<Seq<char>>)
    requires
        names.no_duplicates(),
        forall|i: int| 0 <= i < l2.len() ==> names.contains(#[trigger] l2[i].name@),
    ensures
        matches_all(l2, names) =~= l2.to_multiset(),
    decreases l2.len(),
{
    broadcast use vstd::seq_lib::group_to_multiset_ensures;
    broadcast use vstd::multiset::group_multiset_axioms;
    if l2.len() == 0 {
        assert(l2.to_multiset() =~= Multiset::empty());
        lemma_matches_all_empty(l2, names);
    } else {
        let t = l2.drop_last();
        assert forall|i: int| 0 <= i < t.len() implies names.contains(#[trigger] t[i].name@) by {
            assert(t[i] == l2[i]);
        }
        lemma_matches_all_full(t, names);
        assert(names.contains(l2[l2.len() - 1].name@));
        lemma_matches_all_push(t, l2.last(), names);
        assert(t.push(l2.last()) == l2);
    }
}

proof fn lemma_matches_all_empty(l2: Seq<LibraryEntry>, names: Seq<Seq<char>>)
    requires
        l2.len() == 0,
    ensures
        matches_all(l2, names) =~= Multiset::empty(),
    decreases names.len(),
{
    broadcast use vstd::multiset::group_multiset_axioms;
    broadcast use vstd::seq_lib::group_to_multiset_ensures;
    if names.len() > 0 {
        lemma_matches_all_empty(l2, names.drop_last());
        assert(matches_reversed(l2, names.last()) =~= Seq::<LibraryEntry>::empty());
        assert(Seq::<LibraryEntry>::empty().to_multiset() =~= Multiset::empty());
    }
}

proof fn lemma_special_names()
    ensures
        special_names().no_duplicates(),
        forall|n: Seq<char>| is_special(n) ==> special_names().contains(n),
{
    reveal_strlit("PhotoDirector");
    reveal_strlit("Instagram");
    reveal_strlit("Messenger");
    reveal_strlit("OneDrive");
    reveal_strlit("Google Fotos");
    reveal_strlit("WhatsApp Images");
    reveal_strlit("Camera");
    reveal_strlit("Kamera");
    let s = special_names();
    assert(s[0][0] == 'P' && s[1][0] == 'I' && s[2][0] == 'M' && s[3][0] == 'O' && s[4][0] == 'G'
        && s[5][0] == 'W' && s[6][0] == 'C' && s[7][0] == 'K');
    assert forall|n: Seq<char>| is_special(n) implies s.contains(n) by {
        if n == s[0] {} else if n == s[1] {} else if n == s[2] {} else if n == s[3] {}
        else if n == s[4] {} else if n == s[5] {} else if n == s[6] {} else {
            assert(n == s[7]);
        }
    }
}

proof fn lemma_partition_special(s: Seq<LibraryEntry>, special: bool)
    ensures
        forall|i: int| 0 <= i < partition(s, special).len()
            ==> is_special(#[trigger] partition(s, special)[i].name@) == special,
    decreases s.len(),
{
    if s.len() > 0 {
        lemma_partition_special(s.drop_last(), special);
        let p = partition(s.drop_last(), special);
        if is_special(s.last().name@) == special {
            assert forall|i: int| 0 <= i < partition(s, special).len()
                implies is_special(#[trigger] partition(s, special)[i].name@) == special by {
                if i < p.len() {
                    assert(partition(s, special)[i] == p[i]);
                }
            }
        }
    }
}

/// Listing the libraries neither drops nor repeats any: the listing holds each
/// library exactly as often as the lookup returned it.
pub proof fn law_display_order_permutation(s: Seq<LibraryEntry>)
    ensures
        display_order(s).to_multiset() =~= s.to_multiset(),
{
    broadcast use vstd::multiset::group_multiset_axioms;
    lemma_joined_multiset(partition(s, false), partition(s, true), special_names());
    lemma_special_names();
    lemma_partition_special(s, true);
    let l2 = partition(s, true);
    assert forall|i: int| 0 <= i < l2.len() implies special_names().contains(#[trigger] l2[i].name@) by {
        assert(is_special(l2[i].name@));
    }
    lemma_matches_all_full(l2, special_names());
    lemma_partition_multiset(s);
}

/// Libraries without a special name keep their order and come after all the special
/// ones.
pub proof fn law_others_last_in_order(s: Seq<LibraryEntry>)
    ensures
        exists|front: Seq<LibraryEntry>| display_order(s) == front + partition(s, false)
            && forall|i: int| 0 <= i < front.len() ==> is_special(#[trigger] front[i].name@),
{
    let names = special_names();
    lemma_front_special(partition(s, false), partition(s, true), names);
    let front = choose|front: Seq<LibraryEntry>| joined(partition(s, false), partition(s, true), names)
        == front + partition(s, false) && forall|i: int| 0 <= i < front.len()
        ==> names.contains(#[trigger] front[i].name@);
    lemma_special_names();
    assert forall|i: int| 0 <= i < front.len() implies is_special(#[trigger] front[i].name@) by {
        reveal_strlit("PhotoDirector");
        reveal_strlit("Instagram");
        reveal_strlit("Messenger");
        reveal_strlit("OneDrive");
        reveal_strlit("Google Fotos");
        reveal_strlit("WhatsApp Images");
        reveal_strlit("Camera");
        reveal_strlit("Kamera");
        let k = choose|k: int| 0 <= k < names.len() && names[k] == front[i].name@;
        assert(k == 0 || k == 1 || k == 2 || k == 3 || k == 4 || k == 5 || k == 6 || k == 7);
    }
}

proof fn lemma_matches_reversed_named(l2: Seq<LibraryEntry>, n: Seq<char>)
    ensures
        forall|i: int| 0 <= i < matches_reversed(l2, n).len() ==> (#[trigger] matches_reversed(l2, n)[i]).name@ == n,
    decreases l2.len(),
{
    if l2.len() > 0 {
        lemma_matches_reversed_named(l2.drop_last(), n);
        let m = matches_reversed(l2.drop_last(), n);
        if l2.last().name@ == n {
            assert forall|i: int| 0 <= i < matches_reversed(l2, n).len()
                implies (#[trigger] matches_reversed(l2, n)[i]).name@ == n by {
                if i > 0 {
                    assert(matches_reversed(l2, n)[i] == m[i - 1]);
                }
            }
        }
    }
}

proof fn lemma_front_special(base: Seq<LibraryEntry>, l2: Seq<LibraryEntry>, names: Seq<Seq<char>>)
    ensures
        exists|front: Seq<LibraryEntry>| joined(base, l2, names) == front + base
            && forall|i: int| 0 <= i < front.len() ==> names.contains(#[trigger] front[i].name@),
    decreases names.len(),
{
    if names.len() == 0 {
        assert(joined(base, l2, names) == Seq::<LibraryEntry>::empty() + base);
    } else {
        let init = names.drop_last();
        lemma_front_special(base, l2, init);
        let f0 = choose|front: Seq<LibraryEntry>| joined(base, l2, init) == front + base
            && forall|i: int| 0 <= i < front.len() ==> init.contains(#[trigger] front[i].name@);
        let m = matches_reversed(l2, names.last());
        lemma_matches_reversed_named(l2, names.last());
        let f = m + f0;
        assert(joined(base, l2, names) == f + base);
        assert forall|i: int| 0 <= i < f.len() implies names.contains(#[trigger] f[i].name@) by {
            if i < m.len() {
                assert(f[i] == m[i]);
                assert(names[names.len() - 1] == names.last());
            } else {
                assert(f[i] == f0[i - m.len()]);
                let k = choose|k: int| 0 <= k < init.len() && init[k] == f0[i - m.len()].name@;
                assert(names[k] == init[k]);
            }
        }
    }
}

} // verus!

verus! {

/// Samples are media of the library, taken in list order: with at least four media
/// the four samples sit at strictly increasing positions of the list (so distinct
/// media give distinct samples); with fewer, the present samples are the list and
/// the rest are `0`.
pub proof fn law_samples_from_list(ids: Seq<u64>, c: SampleChoice)
    requires
        valid_choice(ids.len(), c),
        ids.len() > 0,
    ensures
        samples_of(ids, c) matches Ok(t) && (ids.len() >= 4 ==> exists|i0: int, i1: int, i2: int, i3: int|
            0 <= i0 < i1 < i2 < i3 < ids.len() && t == (ids[i0], ids[i1], ids[i2], ids[i3])),
        ids.len() == 1 ==> samples_of(ids, c) == Ok::<(u64, u64, u64, u64), i8>((ids[0], 0, 0, 0)),
        ids.len() == 2 ==> samples_of(ids, c) == Ok::<(u64, u64, u64, u64), i8>((ids[0], ids[1], 0, 0)),
        ids.len() == 3 ==> samples_of(ids, c) == Ok::<(u64, u64, u64, u64), i8>((ids[0], ids[1], ids[2], 0)),
{
    let n = ids.len();
    if n == 4 {
        assert(samples_of(ids, c) == Ok::<(u64, u64, u64, u64), i8>((ids[0], ids[1], ids[2], ids[3])));
    } else if n == 5 {
        if c.even_time {
            assert(samples_of(ids, c) == Ok::<(u64, u64, u64, u64), i8>((ids[0], ids[1], ids[2], ids[3])));
        } else {
            assert(samples_of(ids, c) == Ok::<(u64, u64, u64, u64), i8>((ids[0], ids[1], ids[2], ids[4])));
        }
    } else if n == 6 || n == 7 {
        let o = c.offset as int;
        assert(samples_of(ids, c) == Ok::<(u64, u64, u64, u64), i8>((ids[o], ids[o + 1], ids[o + 2], ids[o + 3])));
    } else if n >= 8 {
        assert(c.picks.0 < c.picks.1 < c.picks.2 < c.picks.3 < n) by (nonlinear_arith)
            requires
                n >= 8,
                c.picks.0 < n / 4 - 1,
                n / 4 <= c.picks.1 < n / 2 - 1,
                n / 2 <= c.picks.2 < 3 * n / 4 - 1,
                3 * n / 4 <= c.picks.3 < n - 1;
        let (a, b, d, e) = (c.picks.0 as int, c.picks.1 as int, c.picks.2 as int, c.picks.3 as int);
        assert(samples_of(ids, c) == Ok::<(u64, u64, u64, u64), i8>((ids[a], ids[b], ids[d], ids[e])));
    }
}

} // verus!
