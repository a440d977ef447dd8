//! The ROM picker's list: the program files of a directory, by name.

use vstd::prelude::*;

verus! {

/// A program file on offer: the name shown and the path it is read from.
#[derive(Clone)]
pub struct RomEntry {
    pub name: String,
    pub path: String,
}

impl RomEntry {
    pub fn new(name: String, path: String) -> (r: RomEntry)
        ensures
            r.name@ == name@,
            r.path@ == path@,
    {
        RomEntry { name, path }
    }
}

/// An entry as plain values: its name and its path.
pub open spec fn entry_view(e: RomEntry) -> (Seq<char>, Seq<char>) {
    (e.name@, e.path@)
}

pub open spec fn entry_views(s: Seq<RomEntry>) -> Seq<(Seq<char>, Seq<char>)> {
    s.map_values(|e: RomEntry| entry_view(e))
}

/// Whether a file name ends in `.ch8`, the extension of CHIP-8 programs.
pub open spec fn has_rom_extension(s: Seq<char>) -> bool {
    let n = s.len() as int;
    &&& n >= 4
    &&& s[n - 4] == '.'
    &&& s[n - 3] == 'c'
    &&& s[n - 2] == 'h'
    &&& s[n - 1] == '8'
}

/// The entries, as plain values, whose name ends in `.ch8`, in their order.
pub open spec fn rom_views(s: Seq<(Seq<char>, Seq<char>)>) -> Seq<(Seq<char>, Seq<char>)> {
    s.filter(|v: (Seq<char>, Seq<char>)| has_rom_extension(v.0))
}

proof fn lemma_rom_views_push(s: Seq<(Seq<char>, Seq<char>)>, x: (Seq<char>, Seq<char>))
    ensures
        rom_views(s.push(x)) == if has_rom_extension(x.0) {
            rom_views(s).push(x)
        } else {
            rom_views(s)
        },
{
    reveal(Seq::filter);
    assert(s.push(x).drop_last() =~= s);
}

/// Lexicographic order on names, character by character; a prefix comes
/// first.
pub open spec fn name_le(a: Seq<char>, b: Seq<char>) -> bool
    decreases a.len(),
{
    if a.len() == 0 {
        true
    } else if b.len() == 0 {
        false
    } else if a[0] as u32 != b[0] as u32 {
        (a[0] as u32) < (b[0] as u32)
    } else {
        name_le(a.drop_first(), b.drop_first())
    }
}

/// Of two names, one comes first.
pub proof fn lemma_name_le_total(a: Seq<char>, b: Seq<char>)
    ensures
        name_le(a, b) || name_le(b, a),
    decreases a.len(),
{
    if a.len() > 0 && b.len() > 0 && a[0] as u32 == b[0] as u32 {
        lemma_name_le_total(a.drop_first(), b.drop_first());
    }
}

fn name_le_exec(a: &str, b: &str) -> (r: bool)
    ensures
        r == name_le(a@, b@),
{
    let la = a.unicode_len();
    let lb = b.unicode_len();
    let mut i: usize = 0;
    assert(a@.skip(0) =~= a@);
    assert(b@.skip(0) =~= b@);
    while i < la && i < lb
        invariant
            la == a@.len(),
            lb == b@.len(),
            i <= la,
            i <= lb,
            name_le(a@, b@) == name_le(a@.skip(i as int), b@.skip(i as int)),
        decreases la - i,
    {
        let ca = a.get_char(i);
        let cb = b.get_char(i);
        assert(a@.skip(i as int).drop_first() =~= a@.skip(i + 1));
        assert(b@.skip(i as int).drop_first() =~= b@.skip(i + 1));
        if ca as u32 != cb as u32 {
            return (ca as u32) < (cb as u32);
        }
        i += 1;
    }
    i == la
}

fn is_rom_name(s: &str) -> (r: bool)
    ensures
        r == has_rom_extension(s@),
{
    let n = s.unicode_len();
    if n < 4 {
        return false;
    }
    s.get_char(n - 4) == '.' && s.get_char(n - 3) == 'c' && s.get_char(n - 2) == 'h'
        && s.get_char(n - 1) == '8'
}

proof fn lemma_views_insert(s: Seq<RomEntry>, p: int, e: RomEntry)
    requires
        0 <= p <= s.len(),
    ensures
        entry_views(s.insert(p, e)).to_multiset() =~= entry_views(s).to_multiset().insert(entry_view(e)),
{
    let vs = entry_views(s.insert(p, e));
    s.insert_ensures(p, e);
    assert(vs.remove(p) =~= entry_views(s));
    vs.to_multiset_ensures();
    assert(vs.to_multiset().count(entry_view(e)) > 0) by {
        assert(vs[p] == entry_view(e));
        assert(vs.contains(entry_view(e)));
    }
}

/// Inserts `e` into a list ordered by name, after the entries whose name
/// comes no later.
fn insert_by_name(r: &mut Vec<RomEntry>, e: RomEntry)
    requires
        forall|k: int| 0 <= k < old(r)@.len() - 1 ==> name_le(#[trigger] old(r)@[k].name@, old(r)@[k + 1].name@),
        forall|k: int| 0 <= k < old(r)@.len() ==> has_rom_extension(#[trigger] old(r)@[k].name@),
        has_rom_extension(e.name@),
    ensures
        forall|k: int| 0 <= k < final(r)@.len() - 1 ==> name_le(#[trigger] final(r)@[k].name@, final(r)@[k + 1].name@),
        forall|k: int| 0 <= k < final(r)@.len() ==> has_rom_extension(#[trigger] final(r)@[k].name@),
        entry_views(final(r)@).to_multiset() =~= entry_views(old(r)@).to_multiset().insert(entry_view(e)),
{
    let mut p: usize = r.len();
    while p > 0 && !name_le_exec(r[p - 1].name.as_str(), e.name.as_str())
        invariant
            p <= r@.len(),
            forall|k: int| p <= k < r@.len() ==> !name_le(#[trigger] r@[k].name@, e.name@),
        decreases p,
    {
        p -= 1;
    }
    let ghost old_r = r@;
    proof {
        if p < r@.len() {
            lemma_name_le_total(r@[p as int].name@, e.name@);
        }
    }
    r.insert(p, e);
    proof {
        assert(r@ =~= old_r.insert(p as int, e));
        old_r.insert_ensures(p as int, e);
        assert forall|k: int| 0 <= k < r@.len() - 1 implies name_le(#[trigger] r@[k].name@, r@[k + 1].name@) by {
            if k + 1 < p {
                assert(r@[k] == old_r[k] && r@[k + 1] == old_r[k + 1]);
            } else if k > p {
                assert(r@[k] == old_r[k - 1] && r@[k + 1] == old_r[k]);
            }
        }
        assert forall|k: int| 0 <= k < r@.len() implies has_rom_extension(#[trigger] r@[k].name@) by {
            if k < p {
                assert(r@[k] == old_r[k]);
            } else if k > p {
                assert(r@[k] == old_r[k - 1]);
            }
        }
        lemma_views_insert(old_r, p as int, e);
    }
}

/// Keeps the entries whose name ends in `.ch8` and orders them by name.
pub fn rom_list(found: Vec<RomEntry>) -> (r: Vec<RomEntry>)
    ensures
        forall|k: int| 0 <= k < r@.len() ==> has_rom_extension(#[trigger] r@[k].name@),
        forall|k: int| 0 <= k < r@.len() - 1 ==> name_le(#[trigger] r@[k].name@, r@[k + 1].name@),
        entry_views(r@).to_multiset() =~= rom_views(entry_views(found@)).to_multiset(),
{
    let mut r: Vec<RomEntry> = Vec::new();
    let mut i: usize = 0;
    proof {
        reveal(Seq::filter);
        assert(entry_views(found@.take(0)) =~= Seq::empty());
        assert(entry_views(r@) =~= Seq::empty());
        assert(rom_views(Seq::empty()) =~= Seq::empty());
    }
    while i < found.len()
        invariant
            i <= found@.len(),
            forall|k: int| 0 <= k < r@.len() ==> has_rom_extension(#[trigger] r@[k].name@),
            forall|k: int| 0 <= k < r@.len() - 1 ==> name_le(#[trigger] r@[k].name@, r@[k + 1].name@),
            entry_views(r@).to_multiset() =~= rom_views(entry_views(found@.take(i as int))).to_multiset(),
        decreases found@.len() - i,
    {
        let ghost before = entry_views(found@.take(i as int));
        let ghost x = entry_view(found@[i as int]);
        proof {
            assert(entry_views(found@.take(i + 1)) =~= before.push(x));
            lemma_rom_views_push(before, x);
            rom_views(before).to_multiset_ensures();
        }
        if is_rom_name(found[i].name.as_str()) {
            let e = RomEntry { name: found[i].name.clone(), path: found[i].path.clone() };
            assert(entry_view(e) == x);
            insert_by_name(&mut r, e);
        }
        i += 1;
    }
    assert(found@.take(found@.len() as int) =~= found@);
    r
}

} // verus!
