//! Names of duplicated entries: "<stem> (copy)<ext>", then "(copy 2)",
//! "(copy 3)" and on, the first one not already taken in the directory.

use vstd::prelude::*;
use vstd::string::*;
use vstd::relations::injective_on;
use vstd::set_lib::{lemma_int_range, lemma_len_subset, lemma_map_size, set_int_range};
use crate::text::{decimal, dec_of, digit_char, digits_of};

verus! {

/// The index of the last `.` of `s`, or -1.
pub open spec fn last_dot(s: Seq<char>) -> int
    decreases s.len(),
{
    if s.len() == 0 {
        -1
    } else if s.last() == '.' {
        s.len() - 1
    } else {
        last_dot(s.drop_last())
    }
}

/// The last `.` lies inside the text, if there is one.
pub proof fn lemma_last_dot_bounds(s: Seq<char>)
    ensures
        -1 <= last_dot(s) < s.len(),
    decreases s.len(),
{
    if s.len() > 0 {
        lemma_last_dot_bounds(s.drop_last());
    }
}

/// Whether a file name has an extension: a `.` after its first character
/// (and the name is not `..`).
pub open spec fn has_extension(name: Seq<char>) -> bool {
    name != ".."@ && last_dot(name) > 0
}

/// The file name without its extension.
pub open spec fn stem_of(name: Seq<char>) -> Seq<char> {
    if has_extension(name) {
        name.subrange(0, last_dot(name))
    } else {
        name
    }
}

/// The text that a duplicate keeps after its suffix: `.` and the extension
/// for a file that has one, nothing for a directory.
pub open spec fn kept_tail(name: Seq<char>, is_dir: bool) -> Seq<char> {
    if !is_dir && has_extension(name) {
        name.subrange(last_dot(name), name.len() as int)
    } else {
        Seq::empty()
    }
}

/// " (copy)" for the first attempt, " (copy n)" for attempt `n` after it.
pub open spec fn copy_suffix(n: nat) -> Seq<char> {
    if n <= 1 {
        " (copy)"@
    } else {
        " (copy "@ + dec_of(n) + ")"@
    }
}

/// The name that attempt `n` (from 1) proposes for a duplicate of `name`.
pub open spec fn candidate(name: Seq<char>, is_dir: bool, n: nat) -> Seq<char> {
    stem_of(name) + copy_suffix(n) + kept_tail(name, is_dir)
}

/// Whether every attempt before `k` proposes a name already in `taken`.
pub open spec fn all_taken_before(taken: Seq<Seq<char>>, name: Seq<char>, is_dir: bool, k: nat) -> bool {
    forall|j: nat| 1 <= j < k ==> #[trigger] taken.contains(candidate(name, is_dir, j))
}

/// The names in a directory, as texts.
pub open spec fn texts(v: Seq<String>) -> Seq<Seq<char>> {
    v.map_values(|s: String| s@)
}

proof fn lemma_digits_len(n: nat)
    ensures
        digits_of(n, 10).len() >= 1,
        n >= 10 ==> digits_of(n, 10).len() >= 2,
    decreases n,
{
    if n >= 10 {
        lemma_digits_len(n / 10);
    }
}

proof fn lemma_dec_injective(n: nat, m: nat)
    requires
        dec_of(n) == dec_of(m),
    ensures
        n == m,
    decreases n,
{
    lemma_digits_len(n);
    lemma_digits_len(m);
    if n < 10 && m < 10 {
        assert(dec_of(n)[0] == digit_char(n));
        assert(dec_of(m)[0] == digit_char(m));
    } else if n >= 10 && m >= 10 {
        let a = digits_of(n / 10, 10);
        let b = digits_of(m / 10, 10);
        assert(dec_of(n) == a.push(digit_char(n % 10)));
        assert(dec_of(m) == b.push(digit_char(m % 10)));
        assert(a =~= dec_of(n).drop_last());
        assert(b =~= dec_of(m).drop_last());
        assert(digit_char(n % 10) == dec_of(n).last());
        lemma_dec_injective(n / 10, m / 10);
    }
}

proof fn lemma_suffix_injective(n: nat, m: nat)
    requires
        n >= 1,
        m >= 1,
        copy_suffix(n) == copy_suffix(m),
    ensures
        n == m,
{
    reveal_strlit(" (copy)");
    reveal_strlit(" (copy ");
    reveal_strlit(")");
    assert(" (copy)"@.len() == 7);
    assert(" (copy "@.len() == 7);
    assert(")"@.len() == 1);
    lemma_digits_len(n);
    lemma_digits_len(m);
    if n >= 2 && m >= 2 {
        let p = " (copy "@;
        let q = ")"@;
        let sn = p + dec_of(n) + q;
        let sm = p + dec_of(m) + q;
        assert(sn.len() == sm.len());
        assert(dec_of(n) =~= sn.subrange(7, sn.len() - 1));
        assert(dec_of(m) =~= sm.subrange(7, sm.len() - 1));
        lemma_dec_injective(n, m);
    } else if n >= 2 {
        assert(copy_suffix(n).len() >= 9);
    } else if m >= 2 {
        assert(copy_suffix(m).len() >= 9);
    }
}

/// Different attempts propose different names.
proof fn lemma_candidates_distinct(name: Seq<char>, is_dir: bool, n: nat, m: nat)
    requires
        n >= 1,
        m >= 1,
        candidate(name, is_dir, n) == candidate(name, is_dir, m),
    ensures
        n == m,
{
    let s = stem_of(name);
    let t = kept_tail(name, is_dir);
    let cn = candidate(name, is_dir, n);
    let cm = candidate(name, is_dir, m);
    assert(copy_suffix(n) =~= cn.subrange(s.len() as int, cn.len() - t.len()));
    assert(copy_suffix(m) =~= cm.subrange(s.len() as int, cm.len() - t.len()));
    lemma_suffix_injective(n, m);
}

/// If the first `k` attempts all propose taken names, there are at least
/// `k` taken names.
proof fn lemma_taken_bound(taken: Seq<Seq<char>>, name: Seq<char>, is_dir: bool, k: nat)
    requires
        all_taken_before(taken, name, is_dir, k + 1),
    ensures
        k <= taken.len(),
{
    let f = |j: int| candidate(name, is_dir, j as nat);
    let a = set_int_range(1, k as int + 1);
    lemma_int_range(1, k as int + 1);
    assert(injective_on(f, a)) by {
        assert forall|x: int, y: int| a.contains(x) && a.contains(y) && #[trigger] f(x) == #[trigger] f(
            y,
        ) implies x == y by {
            lemma_candidates_distinct(name, is_dir, x as nat, y as nat);
        }
    }
    let b = a.map(f);
    lemma_map_size(a, b, f);
    assert(b.subset_of(taken.to_set())) by {
        assert forall|c: Seq<char>| b.contains(c) implies taken.to_set().contains(c) by {
            let j = choose|j: int| a.contains(j) && f(j) == c;
            assert(taken.contains(candidate(name, is_dir, j as nat)));
        }
    }
    taken.lemma_cardinality_of_set();
    lemma_len_subset(b, taken.to_set());
}

/// Where the extension of a file name starts: the index of its `.`, or
/// `None` for a name without one.
pub fn extension_start(name: &str) -> (r: Option<usize>)
    ensures
        r == (if has_extension(name@) {
            Some(last_dot(name@) as usize)
        } else {
            None::<usize>
        }),
{
    let n = name.unicode_len();
    let mut dot: usize = 0;
    let mut found = false;
    let mut i: usize = 0;
    while i < n
        invariant
            n == name@.len(),
            i <= n,
            last_dot(name@.subrange(0, i as int)) == if found {
                dot as int
            } else {
                -1
            },
            found ==> dot < i,
        decreases n - i,
    {
        let c = name.get_char(i);
        proof {
            let pre = name@.subrange(0, i as int + 1);
            assert(pre.drop_last() =~= name@.subrange(0, i as int));
            assert(pre.last() == c);
        }
        if c == '.' {
            dot = i;
            found = true;
        }
        i = i + 1;
    }
    assert(name@.subrange(0, n as int) =~= name@);
    if !found || dot == 0 {
        return None;
    }
    proof {
        reveal_strlit("..");
    }
    if n == 2 && name.get_char(0) == '.' && name.get_char(1) == '.' {
        assert(name@ =~= ".."@);
        return None;
    }
    assert(name@ != ".."@) by {
        reveal_strlit("..");
        if name@ == ".."@ {
            assert(name@[0] == '.' && name@[1] == '.');
        }
    }
    Some(dot)
}

/// The name that attempt `attempt` (from 1) proposes for a duplicate of
/// the entry called `name`: its stem, the copy suffix, then for a file its
/// extension.
pub fn duplicate_candidate(name: &str, is_dir: bool, attempt: u64) -> (r: String)
    ensures
        r@ == candidate(name@, is_dir, attempt as nat),
{
    let n = name.unicode_len();
    let ext = extension_start(name);
    proof {
        lemma_last_dot_bounds(name@);
    }
    let stem = match ext {
        Some(d) => name.substring_char(0, d),
        None => name,
    };
    let with_suffix = if attempt <= 1 {
        String::from_str(stem).concat(" (copy)")
    } else {
        String::from_str(stem).concat(" (copy ").concat(decimal(attempt).as_str()).concat(")")
    };
    let r = match ext {
        Some(d) => {
            if is_dir {
                with_suffix
            } else {
                with_suffix.concat(name.substring_char(d, n))
            }
        },
        None => with_suffix,
    };
    proof {
        if attempt > 1 {
            assert(with_suffix@ =~= stem@ + copy_suffix(attempt as nat));
        }
        assert(r@ =~= candidate(name@, is_dir, attempt as nat));
    }
    r
}

fn contains_text(v: &Vec<String>, s: &String) -> (r: bool)
    ensures
        r == texts(v@).contains(s@),
{
    let mut i: usize = 0;
    while i < v.len()
        invariant
            i <= v@.len(),
            forall|j: int| 0 <= j < i ==> v@[j]@ != s@,
        decreases v@.len() - i,
    {
        if v[i] == *s {
            assert(texts(v@)[i as int] == s@);
            return true;
        }
        i = i + 1;
    }
    assert forall|j: int| 0 <= j < texts(v@).len() implies texts(v@)[j] != s@ by {
        assert(texts(v@)[j] == v@[j]@);
    }
    false
}

/// The name of a duplicate of the entry called `name` among the names in
/// `existing`: the first attempt, counting from 1, whose name is not taken.
pub fn duplicate_name(name: &str, is_dir: bool, existing: &Vec<String>) -> (r: String)
    requires
        existing@.len() < u64::MAX,
    ensures
        exists|k: nat|
            {
                &&& 1 <= k
                &&& r@ == candidate(name@, is_dir, k)
                &&& !texts(existing@).contains(r@)
                &&& all_taken_before(texts(existing@), name@, is_dir, k)
            },
{
    let mut attempt: u64 = 1;
    let mut cand = duplicate_candidate(name, is_dir, attempt);
    while contains_text(existing, &cand)
        invariant
            existing@.len() < u64::MAX,
            1 <= attempt,
            cand@ == candidate(name@, is_dir, attempt as nat),
            all_taken_before(texts(existing@), name@, is_dir, attempt as nat),
        decreases existing@.len() + 1 - attempt,
    {
        proof {
            let t = texts(existing@);
            assert(all_taken_before(t, name@, is_dir, attempt as nat + 1));
            lemma_taken_bound(t, name@, is_dir, attempt as nat);
        }
        attempt = attempt + 1;
        cand = duplicate_candidate(name, is_dir, attempt);
    }
    cand
}

/// Duplicating an entry never lands on a taken name, and it takes the first
/// free one: every earlier attempt's name was taken. So with `report.txt`
/// and `report (copy).txt` present, a duplicate of `report.txt` is named
/// `report (copy 2).txt`.
pub proof fn lemma_duplicate_name_is_first_free(
    taken: Seq<Seq<char>>,
    name: Seq<char>,
    is_dir: bool,
    k: nat,
    k2: nat,
)
    requires
        1 <= k,
        1 <= k2,
        !taken.contains(candidate(name, is_dir, k)),
        all_taken_before(taken, name, is_dir, k),
        !taken.contains(candidate(name, is_dir, k2)),
        all_taken_before(taken, name, is_dir, k2),
    ensures
        k == k2,
        k <= taken.len() + 1,
{
    if k < k2 {
        assert(taken.contains(candidate(name, is_dir, k)));
    }
    if k2 < k {
        assert(taken.contains(candidate(name, is_dir, k2)));
    }
    if k > 1 {
        lemma_taken_bound(taken, name, is_dir, (k - 1) as nat);
    }
}

} // verus!
